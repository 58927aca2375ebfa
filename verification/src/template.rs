//! The HTML page around a converted document: a Handlebars template filled with the document's
//! metadata, its style sheet, its table of contents and its body.
use vstd::prelude::*;
use std::collections::BTreeMap;
use handlebars::Handlebars;
use crate::config::ConversionConfig;
use crate::error::ConversionError;
use crate::parser::ParsedDocument;
use crate::text::{join, join_seq, owned, views};

verus! {

/// The page template. Every value is written with triple braces, as it is: the metadata is
/// escaped for HTML before it is handed to the template, and the style sheet, the table of
/// contents and the body were sanitized before.
pub const BASE_TEMPLATE: &'static str = r#"<!DOCTYPE html>
<html lang="{{#if lang}}{{{lang}}}{{else}}en{{/if}}">
<head>
<meta charset="utf-8">
<meta name="viewport" content="width=device-width, initial-scale=1">
<meta http-equiv="Content-Security-Policy" content="default-src 'none'; style-src 'unsafe-inline'; img-src * data:; font-src * data:">
<title>{{{title}}}</title>
{{#if author}}<meta name="author" content="{{{author}}}">{{/if}}
{{#if description}}<meta name="description" content="{{{description}}}">{{/if}}
{{#if keywords}}<meta name="keywords" content="{{{keywords}}}">{{/if}}
<style>
body { font-family: -apple-system, "Segoe UI", Helvetica, Arial, sans-serif; line-height: 1.6; color: #24292e; max-width: 860px; margin: 0 auto; padding: 2em; }
pre { padding: 1em; overflow-x: auto; border-radius: 4px; }
code { font-family: "SFMono-Regular", Consolas, "Liberation Mono", Menlo, monospace; font-size: 0.9em; }
table { border-collapse: collapse; }
th, td { border: 1px solid #dfe2e5; padding: 6px 13px; }
blockquote { color: #6a737d; border-left: 4px solid #dfe2e5; margin: 0; padding: 0 1em; }
img { max-width: 100%; }
.toc { list-style: none; padding-left: 1em; }
header.document-header { border-bottom: 1px solid #eaecef; margin-bottom: 2em; }
{{#if custom_css}}{{{custom_css}}}{{/if}}
</style>
</head>
<body>
{{#if title}}<header class="document-header">
<h1 class="document-title">{{{title}}}</h1>
{{#if author}}<p class="document-author">By {{{author}}}</p>{{/if}}
{{#if date}}<p class="document-date">{{{date}}}</p>{{/if}}
</header>{{/if}}
{{#if toc}}<nav class="table-of-contents">{{{toc}}}</nav>{{/if}}
<main class="content">{{{content}}}</main>
</body>
</html>
"#;

/// Data bundle required to populate the HTML template.
///
/// Most fields are optional and correspond to document metadata. The `content` field contains
/// the pre-rendered HTML fragment from the Markdown parser.
pub struct TemplateContext<'a> {
    /// Document title.
    pub title: Option<&'a str>,
    /// Document author.
    pub author: Option<&'a str>,
    /// Date of publication or creation.
    pub date: Option<&'a str>,
    /// A short summary for metadata.
    pub description: Option<&'a str>,
    /// A comma-separated list of keywords.
    pub keywords: Option<String>,
    /// HTML language attribute (e.g., "en").
    pub lang: Option<&'a str>,
    /// Sanitized CSS rules to be injected into the document head.
    pub custom_css: Option<&'a str>,
    /// Table of Contents HTML.
    pub toc: Option<&'a str>,
    /// The main body content (HTML fragment).
    pub content: &'a str,
}

/// The text of an optional borrowed string.
pub open spec fn str_view(o: Option<&str>) -> Option<Seq<char>> {
    match o {
        Some(s) => Some(s@),
        None => None,
    }
}

/// The text of an optional string.
pub open spec fn string_view(o: Option<String>) -> Option<Seq<char>> {
    match o {
        Some(s) => Some(s@),
        None => None,
    }
}

/// The entry `(name, value)` when the value is present, else nothing.
pub open spec fn entry(name: Seq<char>, value: Option<Seq<char>>) -> Seq<(Seq<char>, Seq<char>)> {
    match value {
        Some(v) => seq![(name, v)],
        None => Seq::empty(),
    }
}

/// How Handlebars escapes one character for HTML.
pub open spec fn escape_html_char(c: char) -> Seq<char> {
    if c == '<' {
        "&lt;"@
    } else if c == '>' {
        "&gt;"@
    } else if c == '"' {
        "&quot;"@
    } else if c == '&' {
        "&amp;"@
    } else if c == '\'' {
        "&#x27;"@
    } else if c == '`' {
        "&#x60;"@
    } else if c == '=' {
        "&#x3D;"@
    } else {
        seq![c]
    }
}

/// A text escaped for HTML as Handlebars escapes double-brace expressions: `<`, `>`, `"`, `&`,
/// `'`, `` ` `` and `=` become character references; every other character is kept.
pub open spec fn html_escaped(s: Seq<char>) -> Seq<char>
    decreases s.len(),
{
    if s.len() == 0 {
        Seq::empty()
    } else {
        html_escaped(s.drop_last()) + escape_html_char(s.last())
    }
}

/// Calls `handlebars::html_escape`, the escape function Handlebars applies to double-brace
/// expressions; its source maps each character as `escape_html_char` does.
#[verifier::external_body]
fn escape_html(s: &str) -> (r: String)
    ensures
        r@ == html_escaped(s@),
{
    handlebars::html_escape(s)
}

/// A present metadata value, escaped for HTML.
pub open spec fn escaped(value: Option<Seq<char>>) -> Option<Seq<char>> {
    match value {
        Some(v) => Some(html_escaped(v)),
        None => None,
    }
}

/// The data handed to the template: the present metadata fields, by name and escaped for HTML,
/// then the style sheet, the table of contents and the body as they are.
pub open spec fn context_fields(ctx: TemplateContext) -> Seq<(Seq<char>, Seq<char>)> {
    entry("title"@, escaped(str_view(ctx.title))) + entry("author"@, escaped(str_view(ctx.author)))
        + entry("date"@, escaped(str_view(ctx.date))) + entry(
        "description"@,
        escaped(str_view(ctx.description)),
    ) + entry("keywords"@, escaped(string_view(ctx.keywords))) + entry(
        "lang"@,
        escaped(str_view(ctx.lang)),
    ) + entry("custom_css"@, str_view(ctx.custom_css))
        + entry("toc"@, str_view(ctx.toc)) + seq![("content"@, ctx.content@)]
}

/// What Handlebars makes of a template string and data given as named string values: the
/// rendered text, or `None` when rendering fails.
pub uninterp spec fn template_output(template: Seq<char>, fields: Seq<(Seq<char>, Seq<char>)>) -> Option<
    Seq<char>,
>;

/// The views of named string values.
pub open spec fn field_views(fields: Seq<(String, String)>) -> Seq<(Seq<char>, Seq<char>)> {
    fields.map_values(|f: (String, String)| (f.0@, f.1@))
}

/// Renders `template` with `Handlebars::render_template` (a fresh registry: HTML escaping for
/// double braces, strict mode off) on a map from each field's name to its value. Rendering is
/// a function of the template and of the data alone, which `template_output` names.
#[verifier::external_body]
fn render_template(template: &str, fields: &Vec<(String, String)>) -> (r: Result<
    String,
    handlebars::RenderError,
>)
    ensures
        r is Ok <==> template_output(template@, field_views(fields@)) is Some,
        r matches Ok(s) ==> template_output(template@, field_views(fields@)) == Some(s@),
{
    let data: BTreeMap<String, String> = fields.iter().cloned().collect();
    Handlebars::new().render_template(template, &data)
}

fn push_entry(fields: &mut Vec<(String, String)>, name: &str, value: Option<&str>)
    ensures
        field_views(final(fields)@) == field_views(old(fields)@) + entry(name@, str_view(value)),
{
    if let Some(v) = value {
        fields.push((owned(name), owned(v)));
        assert(field_views(final(fields)@) =~= field_views(old(fields)@) + entry(
            name@,
            str_view(value),
        ));
    } else {
        assert(field_views(final(fields)@) =~= field_views(old(fields)@) + entry(
            name@,
            str_view(value),
        ));
    }
}

fn push_escaped(fields: &mut Vec<(String, String)>, name: &str, value: Option<&str>)
    ensures
        field_views(final(fields)@) == field_views(old(fields)@) + entry(
            name@,
            escaped(str_view(value)),
        ),
{
    if let Some(v) = value {
        fields.push((owned(name), escape_html(v)));
        assert(field_views(final(fields)@) =~= field_views(old(fields)@) + entry(
            name@,
            escaped(str_view(value)),
        ));
    } else {
        assert(field_views(final(fields)@) =~= field_views(old(fields)@) + entry(
            name@,
            escaped(str_view(value)),
        ));
    }
}

/// The context's fields as named string values, in the order of `context_fields`.
fn fields_of(ctx: &TemplateContext) -> (r: Vec<(String, String)>)
    ensures
        field_views(r@) == context_fields(*ctx),
{
    let mut fields: Vec<(String, String)> = Vec::new();
    assert(field_views(fields@) =~= Seq::empty());
    push_escaped(&mut fields, "title", ctx.title);
    push_escaped(&mut fields, "author", ctx.author);
    push_escaped(&mut fields, "date", ctx.date);
    push_escaped(&mut fields, "description", ctx.description);
    let keywords: Option<&str> = match &ctx.keywords {
        Some(k) => Some(k.as_str()),
        None => None,
    };
    push_escaped(&mut fields, "keywords", keywords);
    push_escaped(&mut fields, "lang", ctx.lang);
    push_entry(&mut fields, "custom_css", ctx.custom_css);
    push_entry(&mut fields, "toc", ctx.toc);
    push_entry(&mut fields, "content", Some(ctx.content));
    assert(field_views(fields@) =~= context_fields(*ctx));
    fields
}

/// Renders a full HTML document by applying the context to the page template.
///
/// Metadata fields are escaped for HTML by the template engine, while the main `content`
/// (previously rendered from Markdown and sanitized) is written as it is.
///
/// # Errors
/// Returns a `Template` error if the Handlebars rendering engine fails.
pub fn render_html(ctx: TemplateContext<'_>) -> (r: Result<String, ConversionError>)
    ensures
        match r {
            Ok(html) => template_output(BASE_TEMPLATE@, context_fields(ctx)) == Some(html@),
            Err(e) => e is Template && template_output(BASE_TEMPLATE@, context_fields(ctx))
                is None,
        },
{
    let fields = fields_of(&ctx);
    match render_template(BASE_TEMPLATE, &fields) {
        Ok(html) => Ok(html),
        Err(e) => Err(ConversionError::Template(e)),
    }
}

/// The borrowed form of an optional string.
fn as_deref(o: &Option<String>) -> (r: Option<&str>)
    ensures
        str_view(r) == string_view(*o),
{
    match o {
        Some(s) => Some(s.as_str()),
        None => None,
    }
}

/// Transforms a `ParsedDocument` and `ConversionConfig` into a `TemplateContext`: the
/// document's metadata, its keywords joined by `", "`, the configuration's style sheet, and the
/// document's table of contents and body.
pub fn create_context<'a>(doc: &'a ParsedDocument, config: &'a ConversionConfig) -> (r:
    TemplateContext<'a>)
    ensures
        str_view(r.title) == string_view(doc.front_matter.title),
        str_view(r.author) == string_view(doc.front_matter.author),
        str_view(r.date) == string_view(doc.front_matter.date),
        str_view(r.description) == string_view(doc.front_matter.description),
        string_view(r.keywords) == match doc.front_matter.keywords {
            Some(k) => Some(join_seq(views(k@), ", "@)),
            None => None,
        },
        str_view(r.lang) == string_view(doc.front_matter.lang),
        str_view(r.custom_css) == string_view(config.css_content),
        str_view(r.toc) == string_view(doc.toc_html),
        r.content@ == doc.html_content@,
{
    let keywords = match &doc.front_matter.keywords {
        Some(k) => Some(join(k, ", ")),
        None => None,
    };
    TemplateContext {
        title: as_deref(&doc.front_matter.title),
        author: as_deref(&doc.front_matter.author),
        date: as_deref(&doc.front_matter.date),
        description: as_deref(&doc.front_matter.description),
        keywords,
        lang: as_deref(&doc.front_matter.lang),
        custom_css: as_deref(&config.css_content),
        toc: as_deref(&doc.toc_html),
        content: doc.html_content.as_str(),
    }
}

/// The text holds no character that could open or close a tag, an attribute or a quoted value.
pub open spec fn html_inert(s: Seq<char>) -> bool {
    forall|i: int|
        0 <= i < s.len() ==> !(s[i] == '<' || s[i] == '>' || s[i] == '"' || s[i] == '\'' || s[i]
            == '`' || s[i] == '=')
}

proof fn lemma_escaped_is_inert(s: Seq<char>)
    ensures
        html_inert(html_escaped(s)),
    decreases s.len(),
{
    if s.len() > 0 {
        lemma_escaped_is_inert(s.drop_last());
        let head = html_escaped(s.drop_last());
        let tail = escape_html_char(s.last());
        reveal_strlit("&lt;");
        reveal_strlit("&gt;");
        reveal_strlit("&quot;");
        reveal_strlit("&amp;");
        reveal_strlit("&#x27;");
        reveal_strlit("&#x60;");
        reveal_strlit("&#x3D;");
        assert(html_inert(tail));
        assert forall|i: int| 0 <= i < (head + tail).len() implies !((head + tail)[i] == '<' || (
        head + tail)[i] == '>' || (head + tail)[i] == '"' || (head + tail)[i] == '\'' || (head
            + tail)[i] == '`' || (head + tail)[i] == '=') by {
            if i < head.len() {
                assert((head + tail)[i] == head[i]);
            } else {
                assert((head + tail)[i] == tail[i - head.len()]);
            }
        }
    }
}

/// The names under which metadata is handed to the page.
pub open spec fn is_metadata(name: Seq<char>) -> bool {
    name == "title"@ || name == "author"@ || name == "date"@ || name == "description"@ || name
        == "keywords"@ || name == "lang"@
}

/// Every entry of `fields` holds an inert value.
pub open spec fn all_inert(fields: Seq<(Seq<char>, Seq<char>)>) -> bool {
    forall|i: int| 0 <= i < fields.len() ==> html_inert(#[trigger] fields[i].1)
}

/// No entry of `fields` is named as metadata.
pub open spec fn no_metadata(fields: Seq<(Seq<char>, Seq<char>)>) -> bool {
    forall|i: int| 0 <= i < fields.len() ==> !is_metadata(#[trigger] fields[i].0)
}

proof fn lemma_escaped_entry_inert(name: Seq<char>, value: Option<Seq<char>>)
    ensures
        all_inert(entry(name, escaped(value))),
{
    if let Some(v) = value {
        lemma_escaped_is_inert(v);
        assert(entry(name, escaped(value))[0].1 == html_escaped(v));
    }
}

proof fn lemma_concat_inert(a: Seq<(Seq<char>, Seq<char>)>, b: Seq<(Seq<char>, Seq<char>)>)
    requires
        all_inert(a),
        all_inert(b),
    ensures
        all_inert(a + b),
{
    assert forall|i: int| 0 <= i < (a + b).len() implies html_inert(#[trigger] (a + b)[i].1) by {
        if i < a.len() {
            assert((a + b)[i] == a[i]);
        } else {
            assert((a + b)[i] == b[i - a.len()]);
        }
    }
}

proof fn lemma_concat_no_metadata(a: Seq<(Seq<char>, Seq<char>)>, b: Seq<(Seq<char>, Seq<char>)>)
    requires
        no_metadata(a),
        no_metadata(b),
    ensures
        no_metadata(a + b),
{
    assert forall|i: int| 0 <= i < (a + b).len() implies !is_metadata(#[trigger] (a + b)[i].0) by {
        if i < a.len() {
            assert((a + b)[i] == a[i]);
        } else {
            assert((a + b)[i] == b[i - a.len()]);
        }
    }
}

proof fn lemma_other_name(name: Seq<char>, value: Option<Seq<char>>)
    requires
        name == "custom_css"@ || name == "toc"@ || name == "content"@,
    ensures
        no_metadata(entry(name, value)),
{
    reveal_strlit("custom_css");
    reveal_strlit("toc");
    reveal_strlit("content");
    reveal_strlit("title");
    reveal_strlit("author");
    reveal_strlit("date");
    reveal_strlit("description");
    reveal_strlit("keywords");
    reveal_strlit("lang");
    if value is Some {
        let n = entry(name, value)[0].0;
        assert(n == name);
        assert(n != "title"@ && n != "author"@ && n != "date"@ && n != "description"@ && n
            != "keywords"@ && n != "lang"@) by {
            if n == "toc"@ {
                assert(n.len() != "title"@.len() || n[0] != "title"@[0]);
                assert(n[0] != "date"@[0]);
                assert(n[0] != "lang"@[0]);
            } else if n == "content"@ {
                assert(n[1] != "title"@[1]);
                assert(n[0] != "date"@[0]);
            } else {
                assert(n[1] != "title"@[1]);
                assert(n[0] != "date"@[0]);
            }
        }
    }
}

/// Whatever the document's metadata holds, every metadata value handed to the page (title,
/// author, date, description, keywords, language) is free of `<`, `>`, quotes, backquotes and
/// `=`: metadata can neither open a tag nor leave the attribute it is written in. Only the style
/// sheet, the table of contents and the body, sanitized before, are handed over as they are.
pub proof fn lemma_metadata_is_inert(ctx: TemplateContext)
    ensures
        forall|i: int|
            0 <= i < context_fields(ctx).len() && is_metadata(#[trigger] context_fields(ctx)[i].0)
                ==> html_inert(context_fields(ctx)[i].1),
{
    let m1 = entry("title"@, escaped(str_view(ctx.title)));
    let m2 = entry("author"@, escaped(str_view(ctx.author)));
    let m3 = entry("date"@, escaped(str_view(ctx.date)));
    let m4 = entry("description"@, escaped(str_view(ctx.description)));
    let m5 = entry("keywords"@, escaped(string_view(ctx.keywords)));
    let m6 = entry("lang"@, escaped(str_view(ctx.lang)));
    let r1 = entry("custom_css"@, str_view(ctx.custom_css));
    let r2 = entry("toc"@, str_view(ctx.toc));
    let r3: Seq<(Seq<char>, Seq<char>)> = seq![("content"@, ctx.content@)];
    lemma_escaped_entry_inert("title"@, str_view(ctx.title));
    lemma_escaped_entry_inert("author"@, str_view(ctx.author));
    lemma_escaped_entry_inert("date"@, str_view(ctx.date));
    lemma_escaped_entry_inert("description"@, str_view(ctx.description));
    lemma_escaped_entry_inert("keywords"@, string_view(ctx.keywords));
    lemma_escaped_entry_inert("lang"@, str_view(ctx.lang));
    lemma_concat_inert(m1, m2);
    lemma_concat_inert(m1 + m2, m3);
    lemma_concat_inert(m1 + m2 + m3, m4);
    lemma_concat_inert(m1 + m2 + m3 + m4, m5);
    lemma_concat_inert(m1 + m2 + m3 + m4 + m5, m6);
    let meta = m1 + m2 + m3 + m4 + m5 + m6;
    lemma_other_name("custom_css"@, str_view(ctx.custom_css));
    lemma_other_name("toc"@, str_view(ctx.toc));
    lemma_other_name("content"@, Some(ctx.content@));
    assert(r3 == entry("content"@, Some(ctx.content@)));
    lemma_concat_no_metadata(r1, r2);
    lemma_concat_no_metadata(r1 + r2, r3);
    let rest = r1 + r2 + r3;
    assert(context_fields(ctx) =~= meta + rest);
    assert forall|i: int|
        0 <= i < context_fields(ctx).len() && is_metadata(#[trigger] context_fields(ctx)[i].0)
            implies html_inert(context_fields(ctx)[i].1) by {
        if i < meta.len() {
            assert(context_fields(ctx)[i] == meta[i]);
        } else {
            assert(context_fields(ctx)[i] == rest[i - meta.len()]);
        }
    }
}

proof fn lemma_contains_left(
    a: Seq<(Seq<char>, Seq<char>)>,
    b: Seq<(Seq<char>, Seq<char>)>,
    x: (Seq<char>, Seq<char>),
)
    requires
        a.contains(x),
    ensures
        (a + b).contains(x),
{
    let i = choose|i: int| 0 <= i < a.len() && a[i] == x;
    assert((a + b)[i] == x);
}

proof fn lemma_contains_right(
    a: Seq<(Seq<char>, Seq<char>)>,
    b: Seq<(Seq<char>, Seq<char>)>,
    x: (Seq<char>, Seq<char>),
)
    requires
        b.contains(x),
    ensures
        (a + b).contains(x),
{
    let i = choose|i: int| 0 <= i < b.len() && b[i] == x;
    assert((a + b)[a.len() + i] == x);
}

proof fn lemma_entry_contains(name: Seq<char>, value: Seq<char>)
    ensures
        entry(name, Some(value)).contains((name, value)),
{
    assert(entry(name, Some(value))[0] == (name, value));
}

/// Each value of the context is handed to the template under its own name: the title, author,
/// date, description, keywords and language, when present, escaped for HTML; the style sheet
/// and the table of contents, when present, and the body, as they are.
pub proof fn lemma_each_value_under_its_own_name(ctx: TemplateContext)
    ensures
        ctx.title matches Some(v) ==> context_fields(ctx).contains(("title"@, html_escaped(v@))),
        ctx.author matches Some(v) ==> context_fields(ctx).contains(("author"@, html_escaped(v@))),
        ctx.date matches Some(v) ==> context_fields(ctx).contains(("date"@, html_escaped(v@))),
        ctx.description matches Some(v) ==> context_fields(ctx).contains(
            ("description"@, html_escaped(v@)),
        ),
        ctx.keywords matches Some(v) ==> context_fields(ctx).contains(
            ("keywords"@, html_escaped(v@)),
        ),
        ctx.lang matches Some(v) ==> context_fields(ctx).contains(("lang"@, html_escaped(v@))),
        ctx.custom_css matches Some(v) ==> context_fields(ctx).contains(("custom_css"@, v@)),
        ctx.toc matches Some(v) ==> context_fields(ctx).contains(("toc"@, v@)),
        context_fields(ctx).contains(("content"@, ctx.content@)),
{
    let e1 = entry("title"@, escaped(str_view(ctx.title)));
    let e2 = entry("author"@, escaped(str_view(ctx.author)));
    let e3 = entry("date"@, escaped(str_view(ctx.date)));
    let e4 = entry("description"@, escaped(str_view(ctx.description)));
    let e5 = entry("keywords"@, escaped(string_view(ctx.keywords)));
    let e6 = entry("lang"@, escaped(str_view(ctx.lang)));
    let e7 = entry("custom_css"@, str_view(ctx.custom_css));
    let e8 = entry("toc"@, str_view(ctx.toc));
    let e9: Seq<(Seq<char>, Seq<char>)> = seq![("content"@, ctx.content@)];
    let p1 = e1;
    let p2 = p1 + e2;
    let p3 = p2 + e3;
    let p4 = p3 + e4;
    let p5 = p4 + e5;
    let p6 = p5 + e6;
    let p7 = p6 + e7;
    let p8 = p7 + e8;
    let p9 = p8 + e9;
    assert(context_fields(ctx) =~= p9);
    if let Some(v) = ctx.title {
        lemma_entry_contains("title"@, html_escaped(v@));
        lemma_contains_left(p1, e2, ("title"@, html_escaped(v@)));
        lemma_contains_left(p2, e3, ("title"@, html_escaped(v@)));
        lemma_contains_left(p3, e4, ("title"@, html_escaped(v@)));
        lemma_contains_left(p4, e5, ("title"@, html_escaped(v@)));
        lemma_contains_left(p5, e6, ("title"@, html_escaped(v@)));
        lemma_contains_left(p6, e7, ("title"@, html_escaped(v@)));
        lemma_contains_left(p7, e8, ("title"@, html_escaped(v@)));
        lemma_contains_left(p8, e9, ("title"@, html_escaped(v@)));
    }
    if let Some(v) = ctx.author {
        let x = ("author"@, html_escaped(v@));
        lemma_entry_contains("author"@, html_escaped(v@));
        lemma_contains_right(p1, e2, x);
        lemma_contains_left(p2, e3, x);
        lemma_contains_left(p3, e4, x);
        lemma_contains_left(p4, e5, x);
        lemma_contains_left(p5, e6, x);
        lemma_contains_left(p6, e7, x);
        lemma_contains_left(p7, e8, x);
        lemma_contains_left(p8, e9, x);
    }
    if let Some(v) = ctx.date {
        let x = ("date"@, html_escaped(v@));
        lemma_entry_contains("date"@, html_escaped(v@));
        lemma_contains_right(p2, e3, x);
        lemma_contains_left(p3, e4, x);
        lemma_contains_left(p4, e5, x);
        lemma_contains_left(p5, e6, x);
        lemma_contains_left(p6, e7, x);
        lemma_contains_left(p7, e8, x);
        lemma_contains_left(p8, e9, x);
    }
    if let Some(v) = ctx.description {
        let x = ("description"@, html_escaped(v@));
        lemma_entry_contains("description"@, html_escaped(v@));
        lemma_contains_right(p3, e4, x);
        lemma_contains_left(p4, e5, x);
        lemma_contains_left(p5, e6, x);
        lemma_contains_left(p6, e7, x);
        lemma_contains_left(p7, e8, x);
        lemma_contains_left(p8, e9, x);
    }
    if let Some(v) = ctx.keywords {
        let x = ("keywords"@, html_escaped(v@));
        lemma_entry_contains("keywords"@, html_escaped(v@));
        lemma_contains_right(p4, e5, x);
        lemma_contains_left(p5, e6, x);
        lemma_contains_left(p6, e7, x);
        lemma_contains_left(p7, e8, x);
        lemma_contains_left(p8, e9, x);
    }
    if let Some(v) = ctx.lang {
        let x = ("lang"@, html_escaped(v@));
        lemma_entry_contains("lang"@, html_escaped(v@));
        lemma_contains_right(p5, e6, x);
        lemma_contains_left(p6, e7, x);
        lemma_contains_left(p7, e8, x);
        lemma_contains_left(p8, e9, x);
    }
    if let Some(v) = ctx.custom_css {
        let x = ("custom_css"@, v@);
        lemma_entry_contains("custom_css"@, v@);
        lemma_contains_right(p6, e7, x);
        lemma_contains_left(p7, e8, x);
        lemma_contains_left(p8, e9, x);
    }
    if let Some(v) = ctx.toc {
        let x = ("toc"@, v@);
        lemma_entry_contains("toc"@, v@);
        lemma_contains_right(p7, e8, x);
        lemma_contains_left(p8, e9, x);
    }
    assert(e9[0] == ("content"@, ctx.content@));
    lemma_contains_right(p8, e9, ("content"@, ctx.content@));
}

/// Every entry of `fields` named `name` carries `value`, and there is none when `value` is
/// absent.
pub open spec fn only_as(
    fields: Seq<(Seq<char>, Seq<char>)>,
    name: Seq<char>,
    value: Option<Seq<char>>,
) -> bool {
    forall|i: int| 0 <= i < fields.len() && (#[trigger] fields[i]).0 == name ==> value == Some(fields[i].1)
}

proof fn lemma_only_as_concat(
    a: Seq<(Seq<char>, Seq<char>)>,
    b: Seq<(Seq<char>, Seq<char>)>,
    name: Seq<char>,
    value: Option<Seq<char>>,
)
    requires
        only_as(a, name, value),
        only_as(b, name, value),
    ensures
        only_as(a + b, name, value),
{
    assert forall|i: int| 0 <= i < (a + b).len() && (#[trigger] (a + b)[i]).0 == name implies value
        == Some((a + b)[i].1) by {
        if i < a.len() {
            assert((a + b)[i] == a[i]);
        } else {
            assert((a + b)[i] == b[i - a.len()]);
        }
    }
}

proof fn lemma_only_as_entry(n: Seq<char>, v: Option<Seq<char>>, name: Seq<char>, value: Option<Seq<char>>)
    requires
        n != name || v == value,
    ensures
        only_as(entry(n, v), name, value),
{
}

proof fn lemma_field_names_differ()
    ensures
        "title"@.len() == 5,
        "author"@.len() == 6,
        "date"@.len() == 4,
        "description"@.len() == 11,
        "keywords"@.len() == 8,
        "lang"@.len() == 4,
        "custom_css"@.len() == 10,
        "toc"@.len() == 3,
        "content"@.len() == 7,
        "date"@ != "lang"@,
{
    reveal_strlit("title");
    reveal_strlit("author");
    reveal_strlit("date");
    reveal_strlit("description");
    reveal_strlit("keywords");
    reveal_strlit("lang");
    reveal_strlit("custom_css");
    reveal_strlit("toc");
    reveal_strlit("content");
    assert("date"@[0] != "lang"@[0]);
}

proof fn lemma_only_as_fields(ctx: TemplateContext, name: Seq<char>, value: Option<Seq<char>>)
    requires
        name == "title"@ ==> value == escaped(str_view(ctx.title)),
        name == "author"@ ==> value == escaped(str_view(ctx.author)),
        name == "date"@ ==> value == escaped(str_view(ctx.date)),
        name == "description"@ ==> value == escaped(str_view(ctx.description)),
        name == "keywords"@ ==> value == escaped(string_view(ctx.keywords)),
        name == "lang"@ ==> value == escaped(str_view(ctx.lang)),
        name == "custom_css"@ ==> value == str_view(ctx.custom_css),
        name == "toc"@ ==> value == str_view(ctx.toc),
        name == "content"@ ==> value == Some(ctx.content@),
    ensures
        only_as(context_fields(ctx), name, value),
{
    let e1 = entry("title"@, escaped(str_view(ctx.title)));
    let e2 = entry("author"@, escaped(str_view(ctx.author)));
    let e3 = entry("date"@, escaped(str_view(ctx.date)));
    let e4 = entry("description"@, escaped(str_view(ctx.description)));
    let e5 = entry("keywords"@, escaped(string_view(ctx.keywords)));
    let e6 = entry("lang"@, escaped(str_view(ctx.lang)));
    let e7 = entry("custom_css"@, str_view(ctx.custom_css));
    let e8 = entry("toc"@, str_view(ctx.toc));
    let e9: Seq<(Seq<char>, Seq<char>)> = seq![("content"@, ctx.content@)];
    assert(e9 == entry("content"@, Some(ctx.content@)));
    lemma_only_as_entry("title"@, escaped(str_view(ctx.title)), name, value);
    lemma_only_as_entry("author"@, escaped(str_view(ctx.author)), name, value);
    lemma_only_as_entry("date"@, escaped(str_view(ctx.date)), name, value);
    lemma_only_as_entry("description"@, escaped(str_view(ctx.description)), name, value);
    lemma_only_as_entry("keywords"@, escaped(string_view(ctx.keywords)), name, value);
    lemma_only_as_entry("lang"@, escaped(str_view(ctx.lang)), name, value);
    lemma_only_as_entry("custom_css"@, str_view(ctx.custom_css), name, value);
    lemma_only_as_entry("toc"@, str_view(ctx.toc), name, value);
    lemma_only_as_entry("content"@, Some(ctx.content@), name, value);
    lemma_only_as_concat(e1, e2, name, value);
    lemma_only_as_concat(e1 + e2, e3, name, value);
    lemma_only_as_concat(e1 + e2 + e3, e4, name, value);
    lemma_only_as_concat(e1 + e2 + e3 + e4, e5, name, value);
    lemma_only_as_concat(e1 + e2 + e3 + e4 + e5, e6, name, value);
    lemma_only_as_concat(e1 + e2 + e3 + e4 + e5 + e6, e7, name, value);
    lemma_only_as_concat(e1 + e2 + e3 + e4 + e5 + e6 + e7, e8, name, value);
    lemma_only_as_concat(e1 + e2 + e3 + e4 + e5 + e6 + e7 + e8, e9, name, value);
    assert(context_fields(ctx) =~= e1 + e2 + e3 + e4 + e5 + e6 + e7 + e8 + e9);
}

/// No value of the context is handed to the template under another value's name: every entry
/// named after a metadata field carries that field's value, escaped for HTML (and there is none
/// when the field is absent), every entry named `custom_css` or `toc` carries the style sheet or
/// the table of contents, and every entry named `content` carries the body.
pub proof fn lemma_names_carry_their_own_values(ctx: TemplateContext)
    ensures
        only_as(context_fields(ctx), "title"@, escaped(str_view(ctx.title))),
        only_as(context_fields(ctx), "author"@, escaped(str_view(ctx.author))),
        only_as(context_fields(ctx), "date"@, escaped(str_view(ctx.date))),
        only_as(context_fields(ctx), "description"@, escaped(str_view(ctx.description))),
        only_as(context_fields(ctx), "keywords"@, escaped(string_view(ctx.keywords))),
        only_as(context_fields(ctx), "lang"@, escaped(str_view(ctx.lang))),
        only_as(context_fields(ctx), "custom_css"@, str_view(ctx.custom_css)),
        only_as(context_fields(ctx), "toc"@, str_view(ctx.toc)),
        only_as(context_fields(ctx), "content"@, Some(ctx.content@)),
{
    lemma_field_names_differ();
    lemma_only_as_fields(ctx, "title"@, escaped(str_view(ctx.title)));
    lemma_only_as_fields(ctx, "author"@, escaped(str_view(ctx.author)));
    lemma_only_as_fields(ctx, "date"@, escaped(str_view(ctx.date)));
    lemma_only_as_fields(ctx, "description"@, escaped(str_view(ctx.description)));
    lemma_only_as_fields(ctx, "keywords"@, escaped(string_view(ctx.keywords)));
    lemma_only_as_fields(ctx, "lang"@, escaped(str_view(ctx.lang)));
    lemma_only_as_fields(ctx, "custom_css"@, str_view(ctx.custom_css));
    lemma_only_as_fields(ctx, "toc"@, str_view(ctx.toc));
    lemma_only_as_fields(ctx, "content"@, Some(ctx.content@));
}

} // verus!

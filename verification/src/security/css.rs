//! CSS sanitization: user CSS is parsed and re-printed by `lightningcss`, `@import` rules are
//! refused, and the printed CSS is checked for dangerous URL schemes.
use vstd::prelude::*;
use crate::error::ConversionError;
use lightningcss::stylesheet::{ParserOptions, PrinterOptions, StyleSheet};
use crate::text::{chars_of, concat, concat3, lowercase, seq_contains, to_lowercase, vec_contains};

verus! {

/// What `lightningcss` makes of a style sheet: either the parse error's text, or, for each
/// top-level rule, the URL of the rule if it is an `@import` rule, together with the outcome of
/// printing the sheet.
pub enum CssOutcome {
    /// The style sheet could not be parsed.
    Unparsable(String),
    /// The style sheet was parsed.
    Parsed {
        /// One entry per top-level rule: the imported URL for an `@import` rule, else `None`.
        rule_imports: Vec<Option<String>>,
        /// The printed CSS, or the text of the printer's error.
        printed: Result<String, String>,
    },
}

/// The plain value of a `CssOutcome`.
pub enum CssOutcomeView {
    Unparsable(Seq<char>),
    Parsed { rule_imports: Seq<Option<Seq<char>>>, printed: Result<Seq<char>, Seq<char>> },
}

pub open spec fn opt_view(o: Option<String>) -> Option<Seq<char>> {
    match o {
        Some(s) => Some(s@),
        None => None,
    }
}

pub open spec fn res_view(r: Result<String, String>) -> Result<Seq<char>, Seq<char>> {
    match r {
        Ok(s) => Ok(s@),
        Err(e) => Err(e@),
    }
}

impl View for CssOutcome {
    type V = CssOutcomeView;

    open spec fn view(&self) -> CssOutcomeView {
        match self {
            CssOutcome::Unparsable(e) => CssOutcomeView::Unparsable(e@),
            CssOutcome::Parsed { rule_imports, printed } => CssOutcomeView::Parsed {
                rule_imports: rule_imports@.map_values(|o: Option<String>| opt_view(o)),
                printed: res_view(*printed),
            },
        }
    }
}

/// What `lightningcss` makes of the style sheet `css` (parsed with default options, printed
/// with the given `minify` setting).
pub uninterp spec fn stylesheet_outcome(css: Seq<char>, minify: bool) -> CssOutcomeView;

/// Parses `css` with `lightningcss::stylesheet::StyleSheet::parse` (default parser options),
/// reads which top-level rules are `@import` rules, and prints the sheet with
/// `StyleSheet::to_css`. Parsing and printing are functions of the text and of `minify` alone,
/// which `stylesheet_outcome` names. The parsed sheet borrows `css` and its rule type is private
/// to `lightningcss`, so both calls stand in this one item.
#[verifier::external_body]
fn run_lightningcss(css: &str, minify: bool) -> (r: CssOutcome)
    ensures
        r@ == stylesheet_outcome(css@, minify),
{
    let sheet = match StyleSheet::parse(css, ParserOptions::default()) {
        Ok(s) => s,
        Err(e) => return CssOutcome::Unparsable(e.to_string()),
    };
    let rule_imports = sheet.rules.0.iter().map(|rule| match rule {
        lightningcss::rules::CssRule::Import(i) => Some(i.url.to_string()),
        _ => None,
    }).collect();
    let printed = sheet.to_css(PrinterOptions { minify, ..PrinterOptions::default() });
    CssOutcome::Parsed { rule_imports, printed: printed.map(|o| o.code).map_err(|e| e.to_string()) }
}

/// The URL of the first `@import` rule among the top-level rules from position `i` on.
pub open spec fn first_import(imports: Seq<Option<Seq<char>>>, i: int) -> Option<Seq<char>>
    decreases imports.len() - i,
{
    if i < 0 || i >= imports.len() {
        None
    } else if imports[i] is Some {
        imports[i]
    } else {
        first_import(imports, i + 1)
    }
}

/// The dangerous URL schemes, with their trailing colon.
pub open spec fn dangerous_schemes() -> Seq<Seq<char>> {
    seq!["javascript:"@, "vbscript:"@, "data:"@, "file:"@, "blob:"@]
}

/// The name (without colon) of the first dangerous scheme that occurs in the lower-cased CSS.
pub open spec fn dangerous_scheme_in(lower: Seq<char>) -> Option<Seq<char>> {
    if seq_contains(lower, "javascript:"@) {
        Some("javascript"@)
    } else if seq_contains(lower, "vbscript:"@) {
        Some("vbscript"@)
    } else if seq_contains(lower, "data:"@) {
        Some("data"@)
    } else if seq_contains(lower, "file:"@) {
        Some("file"@)
    } else if seq_contains(lower, "blob:"@) {
        Some("blob"@)
    } else {
        None
    }
}

/// The lower-cased CSS holds none of the dangerous schemes.
pub open spec fn free_of_dangerous_schemes(css: Seq<char>) -> bool {
    forall|i: int|
        0 <= i < dangerous_schemes().len() ==> !seq_contains(
            lowercase(css),
            #[trigger] dangerous_schemes()[i],
        )
}

/// The message for a dangerous scheme.
pub open spec fn scheme_message(name: Seq<char>) -> Seq<char> {
    "CSS contains dangerous URL scheme: '"@ + name + "'. This is blocked for security reasons."@
}

/// A `Security` error is viewed as its message, any other error as `None`.
pub open spec fn security_view<T>(r: Result<T, ConversionError>) -> Result<T, Option<Seq<char>>> {
    match r {
        Ok(t) => Ok(t),
        Err(ConversionError::Security(m)) => Err(Some(m@)),
        Err(_) => Err(None),
    }
}

/// A string result with a `Security` error, viewed as plain values.
pub open spec fn security_text_view(r: Result<String, ConversionError>) -> Result<
    Seq<char>,
    Option<Seq<char>>,
> {
    match r {
        Ok(t) => Ok(t@),
        Err(ConversionError::Security(m)) => Err(Some(m@)),
        Err(_) => Err(None),
    }
}

/// The outcome of the check of lower-cased serialized CSS.
pub open spec fn lowercase_check(lower: Seq<char>) -> Result<(), Option<Seq<char>>> {
    match dangerous_scheme_in(lower) {
        Some(name) => Err(Some(scheme_message(name))),
        None => Ok(()),
    }
}

/// The outcome of the check of serialized CSS.
pub open spec fn serialized_check(css: Seq<char>) -> Result<(), Option<Seq<char>>> {
    lowercase_check(lowercase(css))
}

proof fn lemma_no_scheme_is_free(css: Seq<char>)
    requires
        dangerous_scheme_in(lowercase(css)) is None,
    ensures
        free_of_dangerous_schemes(css),
{
    assert forall|i: int| 0 <= i < dangerous_schemes().len() implies !seq_contains(
        lowercase(css),
        #[trigger] dangerous_schemes()[i],
    ) by {
        if i == 0 {
        } else if i == 1 {
        } else if i == 2 {
        } else if i == 3 {
        } else {
        }
    }
}

/// Checks lower-cased CSS for the dangerous URL schemes (`javascript:`, `vbscript:`, `data:`,
/// `file:`, `blob:`, tried in this order); the first one found is named in the error.
pub fn check_lowercased_css(lower: &str) -> (r: Result<(), ConversionError>)
    ensures
        security_view(r) == lowercase_check(lower@),
{
    proof {
        reveal_strlit("javascript:");
        reveal_strlit("vbscript:");
        reveal_strlit("data:");
        reveal_strlit("file:");
        reveal_strlit("blob:");
    }
    let cs = chars_of(lower);
    let name = if vec_contains(&cs, &chars_of("javascript:")) {
        "javascript"
    } else if vec_contains(&cs, &chars_of("vbscript:")) {
        "vbscript"
    } else if vec_contains(&cs, &chars_of("data:")) {
        "data"
    } else if vec_contains(&cs, &chars_of("file:")) {
        "file"
    } else if vec_contains(&cs, &chars_of("blob:")) {
        "blob"
    } else {
        return Ok(());
    };
    Err(
        ConversionError::Security(
            concat3(
                "CSS contains dangerous URL scheme: '",
                name,
                "'. This is blocked for security reasons.",
            ),
        ),
    )
}

/// Check the serialized CSS output for any dangerous URL schemes (`javascript:`, `vbscript:`,
/// `data:`, `file:`, `blob:`), ignoring case.
pub fn check_serialized_css_for_dangerous_urls(css: &str) -> (r: Result<(), ConversionError>)
    ensures
        security_view(r) == serialized_check(css@),
        r is Ok ==> free_of_dangerous_schemes(css@),
{
    let lower = to_lowercase(css);
    let r = check_lowercased_css(lower.as_str());
    proof {
        if r is Ok {
            lemma_no_scheme_is_free(css@);
        }
    }
    r
}

/// The outcome of `sanitize_css` for a given lightningcss outcome.
pub open spec fn sanitize_result(outcome: CssOutcomeView) -> Result<Seq<char>, Option<Seq<char>>> {
    match outcome {
        CssOutcomeView::Unparsable(e) => Err(Some("Failed to parse CSS: "@ + e)),
        CssOutcomeView::Parsed { rule_imports, printed } => match first_import(rule_imports, 0) {
            Some(url) => Err(
                Some("Security check failed: @import rules are not allowed: "@ + url),
            ),
            None => match printed {
                Err(e) => Err(Some("Failed to serialize CSS: "@ + e)),
                Ok(code) => match serialized_check(code) {
                    Ok(_) => Ok(code),
                    Err(m) => Err(m),
                },
            },
        },
    }
}

fn find_import(imports: &Vec<Option<String>>) -> (r: Option<String>)
    ensures
        opt_view(r) == first_import(imports@.map_values(|o: Option<String>| opt_view(o)), 0),
{
    let ghost iv = imports@.map_values(|o: Option<String>| opt_view(o));
    let n = imports.len();
    let mut i: usize = 0;
    while i < n
        invariant
            n == imports@.len(),
            iv == imports@.map_values(|o: Option<String>| opt_view(o)),
            i <= n,
            first_import(iv, 0) == first_import(iv, i as int),
        decreases n - i,
    {
        if let Some(url) = &imports[i] {
            return Some(url.clone());
        }
        i = i + 1;
    }
    None
}

/// Sanitizes CSS content to remove potentially dangerous constructs using `lightningcss`.
///
/// The CSS is parsed by a full CSS parser, `@import` rules are refused, the sheet is printed
/// minified, and the printed text is checked for dangerous URL schemes (in any case) as a
/// defense-in-depth measure. Every error is a `Security` error.
pub fn sanitize_css(css: &str) -> (r: Result<String, ConversionError>)
    ensures
        security_text_view(r) == sanitize_result(stylesheet_outcome(css@, true)),
        r matches Ok(out) ==> free_of_dangerous_schemes(out@),
{
    let outcome = run_lightningcss(css, true);
    match outcome {
        CssOutcome::Unparsable(e) => Err(
            ConversionError::Security(concat("Failed to parse CSS: ", e.as_str())),
        ),
        CssOutcome::Parsed { rule_imports, printed } => {
            if let Some(url) = find_import(&rule_imports) {
                return Err(
                    ConversionError::Security(
                        concat(
                            "Security check failed: @import rules are not allowed: ",
                            url.as_str(),
                        ),
                    ),
                );
            }
            match printed {
                Err(e) => Err(
                    ConversionError::Security(concat("Failed to serialize CSS: ", e.as_str())),
                ),
                Ok(code) => {
                    match check_serialized_css_for_dangerous_urls(code.as_str()) {
                        Ok(()) => Ok(code),
                        Err(e) => Err(e),
                    }
                },
            }
        },
    }
}

proof fn lemma_first_import_at(imports: Seq<Option<Seq<char>>>, i: int, k: int)
    requires
        0 <= i <= k < imports.len(),
        forall|j: int| i <= j < k ==> (#[trigger] imports[j]) is None,
        imports[k] is Some,
    ensures
        first_import(imports, i) == imports[k],
    decreases k - i,
{
    if i < k {
        lemma_first_import_at(imports, i + 1, k);
    }
}

proof fn lemma_no_import(imports: Seq<Option<Seq<char>>>, i: int)
    requires
        0 <= i <= imports.len(),
        forall|j: int| i <= j < imports.len() ==> (#[trigger] imports[j]) is None,
    ensures
        first_import(imports, i) is None,
    decreases imports.len() - i,
{
    if i < imports.len() {
        lemma_no_import(imports, i + 1);
    }
}

/// What the sanitizer does with a parsed style sheet: the first `@import` rule (in order) is
/// refused with its URL; without `@import` rules, the printed CSS is the result when it holds
/// no dangerous scheme, and is refused when it holds one.
pub proof fn lemma_sanitize_rules(
    rule_imports: Seq<Option<Seq<char>>>,
    printed: Result<Seq<char>, Seq<char>>,
    k: int,
)
    ensures
        0 <= k < rule_imports.len() && (forall|j: int| 0 <= j < k ==> (#[trigger] rule_imports[j]) is None)
            && rule_imports[k] is Some ==> sanitize_result(
            CssOutcomeView::Parsed { rule_imports, printed },
        ) == Err::<Seq<char>, Option<Seq<char>>>(
            Some("Security check failed: @import rules are not allowed: "@ + rule_imports[k].unwrap()),
        ),
        (forall|j: int| 0 <= j < rule_imports.len() ==> (#[trigger] rule_imports[j]) is None)
            ==> (printed matches Ok(code) ==> (sanitize_result(
            CssOutcomeView::Parsed { rule_imports, printed },
        ) is Ok <==> free_of_dangerous_schemes(code)) && (sanitize_result(
            CssOutcomeView::Parsed { rule_imports, printed },
        ) matches Ok(out) ==> out == code)),
{
    if 0 <= k < rule_imports.len() && (forall|j: int| 0 <= j < k ==> (#[trigger] rule_imports[j])
        is None) && rule_imports[k] is Some {
        lemma_first_import_at(rule_imports, 0, k);
    }
    if forall|j: int| 0 <= j < rule_imports.len() ==> (#[trigger] rule_imports[j]) is None {
        lemma_no_import(rule_imports, 0);
        if let Ok(code) = printed {
            if dangerous_scheme_in(lowercase(code)) is None {
                lemma_no_scheme_is_free(code);
            } else {
                lemma_scheme_found_not_free(code);
            }
        }
    }
}

proof fn lemma_scheme_found_not_free(css: Seq<char>)
    requires
        dangerous_scheme_in(lowercase(css)) is Some,
    ensures
        !free_of_dangerous_schemes(css),
{
    let l = lowercase(css);
    if seq_contains(l, "javascript:"@) {
        assert(dangerous_schemes()[0] == "javascript:"@);
    } else if seq_contains(l, "vbscript:"@) {
        assert(dangerous_schemes()[1] == "vbscript:"@);
    } else if seq_contains(l, "data:"@) {
        assert(dangerous_schemes()[2] == "data:"@);
    } else if seq_contains(l, "file:"@) {
        assert(dangerous_schemes()[3] == "file:"@);
    } else {
        assert(dangerous_schemes()[4] == "blob:"@);
    }
}

} // verus!

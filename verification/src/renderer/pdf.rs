//! The decisions behind PDF output: the page setup asked for by the document, where to look for
//! the browser, how to launch it, and when the page's network activity has settled.
use vstd::prelude::*;
use vstd::string::StrSliceExecFns;
use super::Renderer;
use crate::config::PdfOptions;
use crate::fspath::{join_path, joined};
use crate::security::css::opt_view;
use crate::security::path::{decimal, decimal_text};
use crate::text::{
    before_newline, chars_of, concat, concat3, first_line, join, join_seq, lowercase, owned,
    seq_ends_with, str_eq, to_lowercase, trim, trimmed, vec_ends_with, views,
};

verus! {

/// A renderer that uses Headless Chrome to generate PDF documents.
pub struct PdfRenderer;

impl PdfRenderer {
    /// Creates a new PDF renderer instance.
    pub fn new() -> (r: Self) {
        PdfRenderer
    }
}

impl Default for PdfRenderer {
    fn default() -> (r: Self) {
        PdfRenderer::new()
    }
}

impl Renderer for PdfRenderer {
    fn extension(&self) -> (r: &'static str)
        ensures
            r@ == "pdf"@,
    {
        proof {
            reveal_strlit("pdf");
        }
        "pdf"
    }

    fn name(&self) -> (r: &'static str)
        ensures
            r@ == "PDF"@,
    {
        proof {
            reveal_strlit("PDF");
        }
        "PDF"
    }
}

// ---------------------------------------------------------------------------------------------
// Page setup
// ---------------------------------------------------------------------------------------------

/// The paper formats the converter knows by name.
#[derive(Clone, Copy, Debug, PartialEq, Eq, Structural)]
pub enum PaperFormat {
    A4,
    A3,
    Letter,
    Legal,
    Tabloid,
}

/// The paper format with the lower-case name `n`.
pub open spec fn paper_of_lowercase(n: Seq<char>) -> Option<PaperFormat> {
    if n == "a4"@ {
        Some(PaperFormat::A4)
    } else if n == "a3"@ {
        Some(PaperFormat::A3)
    } else if n == "letter"@ {
        Some(PaperFormat::Letter)
    } else if n == "legal"@ {
        Some(PaperFormat::Legal)
    } else if n == "tabloid"@ {
        Some(PaperFormat::Tabloid)
    } else {
        None
    }
}

/// The paper format named (in any case) by `name`.
pub open spec fn paper_named(name: Seq<char>) -> Option<PaperFormat> {
    paper_of_lowercase(lowercase(name))
}

/// The paper format with the given lower-case name (`a4`, `a3`, `letter`, `legal`, `tabloid`).
pub fn paper_from_lowercase(n: &str) -> (r: Option<PaperFormat>)
    ensures
        r == paper_of_lowercase(n@),
{
    proof {
        reveal_strlit("a4");
        reveal_strlit("a3");
        reveal_strlit("letter");
        reveal_strlit("legal");
        reveal_strlit("tabloid");
    }
    if str_eq(n, "a4") {
        Some(PaperFormat::A4)
    } else if str_eq(n, "a3") {
        Some(PaperFormat::A3)
    } else if str_eq(n, "letter") {
        Some(PaperFormat::Letter)
    } else if str_eq(n, "legal") {
        Some(PaperFormat::Legal)
    } else if str_eq(n, "tabloid") {
        Some(PaperFormat::Tabloid)
    } else {
        None
    }
}

/// The paper format that a format name asks for; `None` for an unknown name, which keeps the
/// browser's default paper.
pub fn paper_format(name: &str) -> (r: Option<PaperFormat>)
    ensures
        r == paper_named(name@),
{
    let n = to_lowercase(name);
    paper_from_lowercase(n.as_str())
}

/// The unit a margin is written in.
#[derive(Clone, Copy, Debug, PartialEq, Eq, Structural)]
pub enum MarginUnit {
    /// Millimetres, `mm`.
    Mm,
    /// Centimetres, `cm`.
    Cm,
    /// Inches, `in`.
    In,
    /// CSS pixels, `px`.
    Px,
    /// Points, `pt`.
    Pt,
    /// No unit: millimetres are meant.
    Bare,
}

/// A margin as written: the number's text and the unit.
pub struct MarginSpec {
    /// The text of the number, before the unit.
    pub number: String,
    /// The unit.
    pub unit: MarginUnit,
}

/// `s` without its last `n` characters.
pub open spec fn drop_end(s: Seq<char>, n: int) -> Seq<char> {
    s.subrange(0, s.len() - n)
}

/// How a trimmed, lower-cased margin text is split into number and unit: by its unit suffix
/// (`mm`, `cm`, `in`, `px`, `pt`, tried in this order); without a unit suffix the whole text is
/// the number.
pub open spec fn margin_split(t: Seq<char>) -> (Seq<char>, MarginUnit) {
    if seq_ends_with(t, "mm"@) {
        (drop_end(t, 2), MarginUnit::Mm)
    } else if seq_ends_with(t, "cm"@) {
        (drop_end(t, 2), MarginUnit::Cm)
    } else if seq_ends_with(t, "in"@) {
        (drop_end(t, 2), MarginUnit::In)
    } else if seq_ends_with(t, "px"@) {
        (drop_end(t, 2), MarginUnit::Px)
    } else if seq_ends_with(t, "pt"@) {
        (drop_end(t, 2), MarginUnit::Pt)
    } else {
        (t, MarginUnit::Bare)
    }
}

/// How a margin text is read: trimmed and lower-cased, then split into number and unit.
pub open spec fn margin_parts(text: Seq<char>) -> (Seq<char>, MarginUnit) {
    margin_split(lowercase(trimmed(text)))
}

/// Splits a trimmed, lower-cased margin text into the text of its number and its unit.
pub fn split_margin(t: &str) -> (r: MarginSpec)
    ensures
        (r.number@, r.unit) == margin_split(t@),
{
    proof {
        reveal_strlit("mm");
        reveal_strlit("cm");
        reveal_strlit("in");
        reveal_strlit("px");
        reveal_strlit("pt");
    }
    let cs = chars_of(t);
    let n = cs.len();
    let unit = if vec_ends_with(&cs, &chars_of("mm")) {
        MarginUnit::Mm
    } else if vec_ends_with(&cs, &chars_of("cm")) {
        MarginUnit::Cm
    } else if vec_ends_with(&cs, &chars_of("in")) {
        MarginUnit::In
    } else if vec_ends_with(&cs, &chars_of("px")) {
        MarginUnit::Px
    } else if vec_ends_with(&cs, &chars_of("pt")) {
        MarginUnit::Pt
    } else {
        return MarginSpec { number: t.to_string(), unit: MarginUnit::Bare };
    };
    MarginSpec { number: t.substring_char(0, n - 2).to_string(), unit }
}

/// Splits a margin text (such as `"20mm"` or `" 1.5IN "`) into the text of its number and its
/// unit. The number itself is read by the program that prints the page.
pub fn margin_spec(text: &str) -> (r: MarginSpec)
    ensures
        (r.number@, r.unit) == margin_parts(text@),
{
    let t = to_lowercase(trim(text).as_str());
    split_margin(t.as_str())
}

proof fn lemma_ends_with_suffix(n: Seq<char>, suffix: Seq<char>)
    requires
        suffix.len() == 2,
    ensures
        seq_ends_with(n + suffix, suffix),
        drop_end(n + suffix, 2) == n,
{
    assert((n + suffix).subrange((n + suffix).len() - 2, (n + suffix).len() as int) =~= suffix);
    assert(drop_end(n + suffix, 2) =~= n);
}

proof fn lemma_not_ends_with(t: Seq<char>, a: Seq<char>, b: Seq<char>)
    requires
        a.len() == 2,
        b.len() == 2,
        seq_ends_with(t, a),
        a != b,
    ensures
        !seq_ends_with(t, b),
{
}

/// A margin written as a number followed by a unit suffix is read as that number in that unit.
pub proof fn lemma_margin_units(n: Seq<char>)
    ensures
        margin_split(n + "mm"@) == (n, MarginUnit::Mm),
        margin_split(n + "cm"@) == (n, MarginUnit::Cm),
        margin_split(n + "in"@) == (n, MarginUnit::In),
        margin_split(n + "px"@) == (n, MarginUnit::Px),
        margin_split(n + "pt"@) == (n, MarginUnit::Pt),
{
    reveal_strlit("mm");
    reveal_strlit("cm");
    reveal_strlit("in");
    reveal_strlit("px");
    reveal_strlit("pt");
    assert("mm"@ != "cm"@ && "mm"@ != "in"@ && "mm"@ != "px"@ && "mm"@ != "pt"@) by {
        assert("mm"@[0] != "cm"@[0] && "mm"@[0] != "in"@[0] && "mm"@[0] != "px"@[0]
            && "mm"@[0] != "pt"@[0]);
    }
    assert("cm"@ != "in"@ && "cm"@ != "px"@ && "cm"@ != "pt"@) by {
        assert("cm"@[0] != "in"@[0] && "cm"@[0] != "px"@[0] && "cm"@[0] != "pt"@[0]);
    }
    assert("in"@ != "px"@ && "in"@ != "pt"@) by {
        assert("in"@[0] != "px"@[0] && "in"@[0] != "pt"@[0]);
    }
    assert("px"@ != "pt"@) by {
        assert("px"@[1] != "pt"@[1]);
    }
    lemma_ends_with_suffix(n, "mm"@);
    lemma_ends_with_suffix(n, "cm"@);
    lemma_ends_with_suffix(n, "in"@);
    lemma_ends_with_suffix(n, "px"@);
    lemma_ends_with_suffix(n, "pt"@);
    lemma_not_ends_with(n + "cm"@, "cm"@, "mm"@);
    lemma_not_ends_with(n + "in"@, "in"@, "mm"@);
    lemma_not_ends_with(n + "in"@, "in"@, "cm"@);
    lemma_not_ends_with(n + "px"@, "px"@, "mm"@);
    lemma_not_ends_with(n + "px"@, "px"@, "cm"@);
    lemma_not_ends_with(n + "px"@, "px"@, "in"@);
    lemma_not_ends_with(n + "pt"@, "pt"@, "mm"@);
    lemma_not_ends_with(n + "pt"@, "pt"@, "cm"@);
    lemma_not_ends_with(n + "pt"@, "pt"@, "in"@);
    lemma_not_ends_with(n + "pt"@, "pt"@, "px"@);
}

/// A margin text ending in a digit has no unit suffix: all of it is the number, in millimetres.
pub proof fn lemma_margin_without_unit(t: Seq<char>)
    requires
        t.len() > 0,
        '0' <= t.last() <= '9',
    ensures
        margin_split(t) == (t, MarginUnit::Bare),
{
    reveal_strlit("mm");
    reveal_strlit("cm");
    reveal_strlit("in");
    reveal_strlit("px");
    reveal_strlit("pt");
    if t.len() >= 2 {
        assert(t.subrange(t.len() - 2, t.len() as int)[1] == t.last());
    }
}

/// Margins and paper formats do not depend on case, and margins not on surrounding white space:
/// two texts that agree once so normalized are read alike.
pub proof fn lemma_page_setup_ignores_case(a: Seq<char>, b: Seq<char>)
    ensures
        lowercase(a) == lowercase(b) ==> paper_named(a) == paper_named(b),
        lowercase(trimmed(a)) == lowercase(trimmed(b)) ==> margin_parts(a) == margin_parts(b),
{
}

/// Each side's margin is its own one when given, else the shorthand for all sides, else the
/// default.
pub proof fn lemma_side_margin_precedence(side: Option<Seq<char>>, all: Option<Seq<char>>)
    ensures
        side matches Some(x) ==> side_margin(side, all) == Some(margin_parts(x)),
        side is None ==> (all matches Some(a) ==> side_margin(side, all) == Some(margin_parts(a))),
        side is None && all is None ==> side_margin(side, all) is None,
{
}

/// The page setup for the browser's print command, as far as it is not a floating-point
/// number. A margin of `None` is the default margin of 20 mm.
pub struct PrintPlan {
    /// The paper format, or `None` for the browser's default paper.
    pub paper: Option<PaperFormat>,
    /// The top margin.
    pub margin_top: Option<MarginSpec>,
    /// The bottom margin.
    pub margin_bottom: Option<MarginSpec>,
    /// The left margin.
    pub margin_left: Option<MarginSpec>,
    /// The right margin.
    pub margin_right: Option<MarginSpec>,
    /// Whether background graphics are printed.
    pub print_background: bool,
    /// Whether the page is in landscape orientation.
    pub landscape: bool,
    /// Whether a header or footer is printed.
    pub display_header_footer: bool,
    /// The header template.
    pub header_template: Option<String>,
    /// The footer template.
    pub footer_template: Option<String>,
}

/// The margin written for one side: the side's own margin, else the shorthand for all sides.
pub open spec fn side_margin(side: Option<Seq<char>>, all: Option<Seq<char>>) -> Option<
    (Seq<char>, MarginUnit),
> {
    match side {
        Some(s) => Some(margin_parts(s)),
        None => match all {
            Some(a) => Some(margin_parts(a)),
            None => None,
        },
    }
}

/// The view of a read margin.
pub open spec fn margin_view(m: Option<MarginSpec>) -> Option<(Seq<char>, MarginUnit)> {
    match m {
        Some(s) => Some((s.number@, s.unit)),
        None => None,
    }
}

fn read_side(side: &Option<String>, all: &Option<String>) -> (r: Option<MarginSpec>)
    ensures
        margin_view(r) == side_margin(opt_view(*side), opt_view(*all)),
{
    match side {
        Some(s) => Some(margin_spec(s.as_str())),
        None => match all {
            Some(a) => Some(margin_spec(a.as_str())),
            None => None,
        },
    }
}

fn clone_opt(o: &Option<String>) -> (r: Option<String>)
    ensures
        opt_view(r) == opt_view(*o),
{
    match o {
        Some(s) => Some(s.clone()),
        None => None,
    }
}

/// The page setup that the document's PDF options ask for: the named paper format, each side's
/// margin (its own, else the shorthand, else the default), the two switches, and the header and
/// footer templates, printed when either is given.
pub fn print_plan(options: &PdfOptions) -> (r: PrintPlan)
    ensures
        r.paper == match options.format {
            Some(f) => paper_named(f@),
            None => None,
        },
        margin_view(r.margin_top) == side_margin(opt_view(options.margin_top), opt_view(options.margin)),
        margin_view(r.margin_bottom) == side_margin(
            opt_view(options.margin_bottom),
            opt_view(options.margin),
        ),
        margin_view(r.margin_left) == side_margin(opt_view(options.margin_left), opt_view(options.margin)),
        margin_view(r.margin_right) == side_margin(
            opt_view(options.margin_right),
            opt_view(options.margin),
        ),
        r.print_background == options.print_background,
        r.landscape == options.landscape,
        r.display_header_footer == (options.header_template is Some
            || options.footer_template is Some),
        opt_view(r.header_template) == opt_view(options.header_template),
        opt_view(r.footer_template) == opt_view(options.footer_template),
{
    let paper = match &options.format {
        Some(f) => paper_format(f.as_str()),
        None => None,
    };
    PrintPlan {
        paper,
        margin_top: read_side(&options.margin_top, &options.margin),
        margin_bottom: read_side(&options.margin_bottom, &options.margin),
        margin_left: read_side(&options.margin_left, &options.margin),
        margin_right: read_side(&options.margin_right, &options.margin),
        print_background: options.print_background,
        landscape: options.landscape,
        display_header_footer: options.header_template.is_some()
            || options.footer_template.is_some(),
        header_template: clone_opt(&options.header_template),
        footer_template: clone_opt(&options.footer_template),
    }
}

/// The message when printing takes longer than the configured timeout.
pub fn timeout_message(timeout_secs: u64) -> (r: String)
    ensures
        r@ == "PDF generation timed out after "@ + decimal_text(timeout_secs) + "s"@,
{
    let n = decimal(timeout_secs);
    concat3("PDF generation timed out after ", n.as_str(), "s")
}

// ---------------------------------------------------------------------------------------------
// Finding and launching the browser
// ---------------------------------------------------------------------------------------------

/// The operating systems whose usual browser locations the converter knows.
#[derive(Clone, Copy, Debug, PartialEq, Eq, Structural)]
pub enum Platform {
    MacOs,
    Windows,
    Linux,
}

/// The Windows directories where browsers are installed, as the environment names them (empty
/// when a variable is not set).
pub struct WindowsDirs {
    /// `PROGRAMFILES`.
    pub program_files: String,
    /// `PROGRAMFILES(X86)`.
    pub program_files_x86: String,
    /// `LOCALAPPDATA`.
    pub local_app_data: String,
}

/// The usual browser locations of a platform, in the order they are tried.
pub open spec fn candidates_of(platform: Platform, dirs: WindowsDirs) -> Seq<Seq<char>> {
    match platform {
        Platform::MacOs => seq![
            "/Applications/Google Chrome.app/Contents/MacOS/Google Chrome"@,
            "/Applications/Chromium.app/Contents/MacOS/Chromium"@,
            "/Applications/Microsoft Edge.app/Contents/MacOS/Microsoft Edge"@,
            "/Applications/Brave Browser.app/Contents/MacOS/Brave Browser"@,
        ],
        Platform::Windows => seq![
            joined(dirs.program_files@, "Google\\Chrome\\Application\\chrome.exe"@),
            joined(dirs.program_files_x86@, "Google\\Chrome\\Application\\chrome.exe"@),
            joined(dirs.local_app_data@, "Google\\Chrome\\Application\\chrome.exe"@),
            joined(dirs.program_files@, "Microsoft\\Edge\\Application\\msedge.exe"@),
        ],
        Platform::Linux => seq![
            "/usr/bin/google-chrome"@,
            "/usr/bin/google-chrome-stable"@,
            "/usr/bin/chromium"@,
            "/usr/bin/chromium-browser"@,
            "/snap/bin/chromium"@,
            "/usr/bin/brave-browser"@,
        ],
    }
}

fn strings(words: &[&str]) -> (r: Vec<String>)
    ensures
        views(r@) == words@.map_values(|w: &str| w@),
{
    let mut r: Vec<String> = Vec::new();
    let mut i: usize = 0;
    while i < words.len()
        invariant
            i <= words@.len(),
            views(r@) == words@.take(i as int).map_values(|w: &str| w@),
        decreases words.len() - i,
    {
        let ghost before = r@;
        r.push(owned(words[i]));
        assert(views(r@) =~= views(before).push(words@[i as int]@));
        assert(words@.take(i + 1) =~= words@.take(i as int).push(words@[i as int]));
        assert(views(r@) =~= words@.take(i + 1).map_values(|w: &str| w@));
        i = i + 1;
    }
    assert(words@.take(words@.len() as int) =~= words@);
    r
}

/// Get list of common Chrome/Chromium locations for a platform.
pub fn get_platform_chrome_paths(platform: Platform, dirs: &WindowsDirs) -> (r: Vec<String>)
    ensures
        views(r@) == candidates_of(platform, *dirs),
{
    proof {
        reveal_strlit("/Applications/Google Chrome.app/Contents/MacOS/Google Chrome");
        reveal_strlit("/Applications/Chromium.app/Contents/MacOS/Chromium");
        reveal_strlit("/Applications/Microsoft Edge.app/Contents/MacOS/Microsoft Edge");
        reveal_strlit("/Applications/Brave Browser.app/Contents/MacOS/Brave Browser");
        reveal_strlit("/usr/bin/google-chrome");
        reveal_strlit("/usr/bin/google-chrome-stable");
        reveal_strlit("/usr/bin/chromium");
        reveal_strlit("/usr/bin/chromium-browser");
        reveal_strlit("/snap/bin/chromium");
        reveal_strlit("/usr/bin/brave-browser");
    }
    match platform {
        Platform::MacOs => {
            let r = strings(
                &[
                    "/Applications/Google Chrome.app/Contents/MacOS/Google Chrome",
                    "/Applications/Chromium.app/Contents/MacOS/Chromium",
                    "/Applications/Microsoft Edge.app/Contents/MacOS/Microsoft Edge",
                    "/Applications/Brave Browser.app/Contents/MacOS/Brave Browser",
                ],
            );
            assert(views(r@) =~= candidates_of(platform, *dirs));
            r
        },
        Platform::Windows => {
            let mut r: Vec<String> = Vec::new();
            r.push(
                join_path(dirs.program_files.as_str(), "Google\\Chrome\\Application\\chrome.exe"),
            );
            r.push(
                join_path(
                    dirs.program_files_x86.as_str(),
                    "Google\\Chrome\\Application\\chrome.exe",
                ),
            );
            r.push(
                join_path(dirs.local_app_data.as_str(), "Google\\Chrome\\Application\\chrome.exe"),
            );
            r.push(
                join_path(dirs.program_files.as_str(), "Microsoft\\Edge\\Application\\msedge.exe"),
            );
            assert(views(r@) =~= candidates_of(platform, *dirs));
            r
        },
        Platform::Linux => {
            let r = strings(
                &[
                    "/usr/bin/google-chrome",
                    "/usr/bin/google-chrome-stable",
                    "/usr/bin/chromium",
                    "/usr/bin/chromium-browser",
                    "/snap/bin/chromium",
                    "/usr/bin/brave-browser",
                ],
            );
            assert(views(r@) =~= candidates_of(platform, *dirs));
            r
        },
    }
}

/// The position of the first candidate that exists, given whether each one does.
pub fn first_found(exists: &Vec<bool>) -> (r: Option<usize>)
    ensures
        match r {
            Some(i) => i < exists@.len() && exists@[i as int] && forall|k: int|
                0 <= k < i ==> !exists@[k],
            None => forall|k: int| 0 <= k < exists@.len() ==> !exists@[k],
        },
{
    let mut i: usize = 0;
    while i < exists.len()
        invariant
            i <= exists@.len(),
            forall|k: int| 0 <= k < i ==> !exists@[k],
        decreases exists.len() - i,
    {
        if exists[i] {
            return Some(i);
        }
        i = i + 1;
    }
    None
}

/// The command that looks a program up in `PATH`, and the browser names it is asked for, in
/// order.
pub open spec fn lookup_plan_of(platform: Platform) -> (Seq<char>, Seq<Seq<char>>) {
    match platform {
        Platform::Windows => ("where"@, seq!["chrome"@, "msedge"@]),
        _ => (
            "which"@,
            seq!["chromium"@, "chromium-browser"@, "google-chrome"@, "google-chrome-stable"@, "chrome"@],
        ),
    }
}

/// The command that looks a browser up in `PATH` on a platform, and the names it tries.
pub fn path_lookup_plan(platform: Platform) -> (r: (&'static str, Vec<String>))
    ensures
        (r.0@, views(r.1@)) == lookup_plan_of(platform),
{
    proof {
        reveal_strlit("where");
        reveal_strlit("which");
        reveal_strlit("chrome");
        reveal_strlit("msedge");
        reveal_strlit("chromium");
        reveal_strlit("chromium-browser");
        reveal_strlit("google-chrome");
        reveal_strlit("google-chrome-stable");
    }
    match platform {
        Platform::Windows => {
            let names = strings(&["chrome", "msedge"]);
            assert(views(names@) =~= lookup_plan_of(platform).1);
            ("where", names)
        },
        _ => {
            let names = strings(
                &["chromium", "chromium-browser", "google-chrome", "google-chrome-stable", "chrome"],
            );
            assert(views(names@) =~= lookup_plan_of(platform).1);
            ("which", names)
        },
    }
}

/// The browser path that a successful lookup printed: its first line, trimmed, unless empty.
pub open spec fn lookup_result(output: Seq<char>) -> Option<Seq<char>> {
    let p = trimmed(before_newline(output));
    if p.len() == 0 {
        None
    } else {
        Some(p)
    }
}

/// The browser path in the output of a successful lookup command.
pub fn path_from_lookup_output(output: &str) -> (r: Option<String>)
    ensures
        opt_view(r) == lookup_result(output@),
{
    let line = first_line(output);
    let p = trim(line.as_str());
    if chars_of(p.as_str()).len() == 0 {
        None
    } else {
        Some(p)
    }
}

/// The message when no browser was found.
pub open spec fn not_found_message(candidates: Seq<Seq<char>>) -> Seq<char> {
    "Could not find Chrome/Chromium. Please:\n- Install Chrome, Chromium, or Edge, OR\n- Set --chrome-path to the browser executable, OR\n- Set the CHROME_PATH environment variable\n\nSearched locations:\n  "@
        + join_seq(candidates, "\n  "@)
}

/// The message when no browser was found, listing the locations searched.
pub fn chrome_not_found_message(candidates: &Vec<String>) -> (r: String)
    ensures
        r@ == not_found_message(views(candidates@)),
{
    let list = join(candidates, "\n  ");
    concat(
        "Could not find Chrome/Chromium. Please:\n- Install Chrome, Chromium, or Edge, OR\n- Set --chrome-path to the browser executable, OR\n- Set the CHROME_PATH environment variable\n\nSearched locations:\n  ",
        list.as_str(),
    )
}

/// The prefix of the temporary profile directory of each launched browser.
pub const PROFILE_DIR_PREFIX: &'static str = "md-conv-profile-";

/// The width of the browser's viewport, in pixels.
pub const VIEWPORT_WIDTH: u32 = 800;

/// The height of the browser's viewport, in pixels.
pub const VIEWPORT_HEIGHT: u32 = 1100;

/// The command-line switches a browser is launched with.
pub open spec fn launch_args(no_sandbox: bool) -> Seq<Seq<char>> {
    let base = seq![
        "--disable-gpu"@,
        "--disable-dev-shm-usage"@,
        "--disable-extensions"@,
        "--disable-background-networking"@,
        "--disable-sync"@,
        "--disable-translate"@,
        "--mute-audio"@,
        "--no-first-run"@,
        "--safebrowsing-disable-auto-update"@,
    ];
    if no_sandbox {
        base.push("--no-sandbox"@)
    } else {
        base
    }
}

/// The command-line switches a browser is launched with: the browser's defaults are off, and
/// the sandbox is off only when asked for.
pub fn browser_args(no_sandbox: bool) -> (r: Vec<String>)
    ensures
        views(r@) == launch_args(no_sandbox),
{
    proof {
        reveal_strlit("--disable-gpu");
        reveal_strlit("--disable-dev-shm-usage");
        reveal_strlit("--disable-extensions");
        reveal_strlit("--disable-background-networking");
        reveal_strlit("--disable-sync");
        reveal_strlit("--disable-translate");
        reveal_strlit("--mute-audio");
        reveal_strlit("--no-first-run");
        reveal_strlit("--safebrowsing-disable-auto-update");
        reveal_strlit("--no-sandbox");
    }
    let mut r = strings(
        &[
            "--disable-gpu",
            "--disable-dev-shm-usage",
            "--disable-extensions",
            "--disable-background-networking",
            "--disable-sync",
            "--disable-translate",
            "--mute-audio",
            "--no-first-run",
            "--safebrowsing-disable-auto-update",
        ],
    );
    if no_sandbox {
        let ghost before = r@;
        r.push(owned("--no-sandbox"));
        assert(views(r@) =~= views(before).push("--no-sandbox"@));
    }
    assert(views(r@) =~= launch_args(no_sandbox));
    r
}

// ---------------------------------------------------------------------------------------------
// Network idle
// ---------------------------------------------------------------------------------------------

/// How long the page's network must be quiet, in milliseconds, before it counts as idle.
pub const IDLE_THRESHOLD_MS: u64 = 100;

/// How often the page is checked for idleness, in milliseconds.
pub const CHECK_INTERVAL_MS: u64 = 50;

/// How long to wait for the page's network to become idle, in milliseconds.
pub const NETWORK_IDLE_TIMEOUT_MS: u64 = 5000;

/// Tracks the page's requests that are still loading and the time of the last network
/// activity, in milliseconds on the program's monotonic clock.
pub struct IdleTracker {
    pending: Vec<String>,
    last_activity: u64,
}

impl IdleTracker {
    /// The requests still loading.
    pub closed spec fn pending(&self) -> Set<Seq<char>> {
        views(self.pending@).to_set()
    }

    /// The time of the last network activity.
    pub closed spec fn last_activity(&self) -> u64 {
        self.last_activity
    }

    /// No request is recorded twice.
    pub closed spec fn wf(&self) -> bool {
        views(self.pending@).no_duplicates()
    }

    /// The page's network is idle at time `now`: nothing is loading and the network has been
    /// quiet for the threshold.
    pub open spec fn idle_at(&self, now: u64) -> bool {
        self.pending().is_empty() && now >= self.last_activity() && now - self.last_activity()
            >= IDLE_THRESHOLD_MS
    }

    /// A tracker started at time `now`, with nothing loading.
    pub fn new(now: u64) -> (r: Self)
        ensures
            r.wf(),
            r.pending() == Set::<Seq<char>>::empty(),
            r.last_activity() == now,
    {
        let r = IdleTracker { pending: Vec::new(), last_activity: now };
        assert(views(r.pending@) =~= Seq::<Seq<char>>::empty());
        r
    }

    fn position(&self, id: &str) -> (r: Option<usize>)
        ensures
            match r {
                Some(i) => i < self.pending@.len() && self.pending@[i as int]@ == id@,
                None => !views(self.pending@).contains(id@),
            },
    {
        let mut i: usize = 0;
        while i < self.pending.len()
            invariant
                i <= self.pending@.len(),
                forall|k: int| 0 <= k < i ==> self.pending@[k]@ != id@,
            decreases self.pending.len() - i,
        {
            if str_eq(self.pending[i].as_str(), id) {
                return Some(i);
            }
            i = i + 1;
        }
        proof {
            if views(self.pending@).contains(id@) {
                let k = choose|k: int| 0 <= k < views(self.pending@).len() && views(self.pending@)[k] == id@;
                assert(self.pending@[k]@ == id@);
            }
        }
        None
    }

    /// A request was sent at time `now`.
    pub fn request_sent(&mut self, id: &str, now: u64)
        requires
            old(self).wf(),
        ensures
            final(self).wf(),
            final(self).pending() == old(self).pending().insert(id@),
            final(self).last_activity() == now,
    {
        let ghost before = views(self.pending@);
        if self.position(id).is_none() {
            self.pending.push(owned(id));
            proof {
                assert(views(self.pending@) =~= before.push(id@));
                assert forall|a: int, b: int|
                    0 <= a < b < views(self.pending@).len() implies views(self.pending@)[a]
                    != views(self.pending@)[b] by {
                    if b == before.len() {
                        assert(before.contains(before[a]));
                    }
                }
                assert(views(self.pending@).to_set() =~= before.to_set().insert(id@)) by {
                    assert forall|x: Seq<char>| views(self.pending@).to_set().contains(x) <==> before.to_set().insert(id@).contains(x) by {
                        if x == id@ {
                            assert(views(self.pending@)[before.len() as int] == x);
                        } else if views(self.pending@).contains(x) {
                            let k = choose|k: int| 0 <= k < views(self.pending@).len() && views(self.pending@)[k] == x;
                            assert(before[k] == x);
                        } else if before.contains(x) {
                            let k = choose|k: int| 0 <= k < before.len() && before[k] == x;
                            assert(views(self.pending@)[k] == x);
                        }
                    }
                }
            }
        } else {
            proof {
                assert(before.to_set() =~= before.to_set().insert(id@)) by {
                    assert(before.contains(id@)) by {
                        let i = choose|i: int| 0 <= i < self.pending@.len() && self.pending@[i]@ == id@;
                        assert(before[i] == id@);
                    }
                }
            }
        }
        self.last_activity = now;
    }

    /// A request finished loading at time `now`.
    pub fn loading_finished(&mut self, id: &str, now: u64)
        requires
            old(self).wf(),
        ensures
            final(self).wf(),
            final(self).pending() == old(self).pending().remove(id@),
            final(self).last_activity() == now,
    {
        let ghost before = views(self.pending@);
        match self.position(id) {
            Some(i) => {
                assert(before[i as int] == id@);
                self.pending.remove(i);
                proof {
                    assert(views(self.pending@) =~= before.remove(i as int));
                    assert forall|a: int, b: int|
                        0 <= a < b < views(self.pending@).len() implies views(self.pending@)[a]
                        != views(self.pending@)[b] by {
                        let a0 = if a < i { a } else { a + 1 };
                        let b0 = if b < i { b } else { b + 1 };
                        assert(before[a0] != before[b0]);
                    }
                    assert(views(self.pending@).to_set() =~= before.to_set().remove(id@)) by {
                        assert forall|x: Seq<char>| views(self.pending@).to_set().contains(x) <==> before.to_set().remove(id@).contains(x) by {
                            if views(self.pending@).contains(x) {
                                let k = choose|k: int| 0 <= k < views(self.pending@).len() && views(self.pending@)[k] == x;
                                let k0 = if k < i { k } else { k + 1 };
                                assert(before[k0] == x);
                                assert(k0 != i);
                                assert(before[k0] != before[i as int]);
                                assert(before.contains(x));
                                assert(before.to_set().remove(id@).contains(x));
                            }
                            if x != id@ && before.contains(x) {
                                let k = choose|k: int| 0 <= k < before.len() && before[k] == x;
                                assert(k != i);
                                let k1 = if k < i { k } else { k - 1 };
                                assert(views(self.pending@)[k1] == x);
                            }
                        }
                    }
                }
            },
            None => {
                proof {
                    assert(before.to_set() =~= before.to_set().remove(id@));
                }
            },
        }
        self.last_activity = now;
    }

    /// Whether the page's network is idle at time `now`.
    pub fn is_idle(&self, now: u64) -> (r: bool)
        requires
            self.wf(),
        ensures
            r == self.idle_at(now),
    {
        proof {
            if self.pending@.len() > 0 {
                assert(self.pending().contains(views(self.pending@)[0]));
            } else {
                assert(views(self.pending@) =~= Seq::<Seq<char>>::empty());
                assert(self.pending() =~= Set::<Seq<char>>::empty());
            }
        }
        self.pending.len() == 0 && now >= self.last_activity && now - self.last_activity
            >= IDLE_THRESHOLD_MS
    }
}

/// A page with a request still loading is never idle, whatever the time.
pub proof fn lemma_loading_request_blocks_idle(t: IdleTracker, id: Seq<char>, now: u64)
    requires
        t.pending().contains(id),
    ensures
        !t.idle_at(now),
{
}

/// Right after network activity the page is not idle: the threshold has to pass first.
pub proof fn lemma_activity_restarts_quiet_period(t: IdleTracker, now: u64)
    requires
        t.last_activity() == now,
    ensures
        !t.idle_at(now),
{
}

} // verus!

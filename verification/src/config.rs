//! Document metadata, the shared configuration file, and the configuration a conversion runs
//! with: command-line options first, then the configuration file, then the document.
use vstd::prelude::*;
use crate::cli::{Args, OutputFormat, DEFAULT_MAX_FILE_SIZE_MB, DEFAULT_TIMEOUT_SECS};
use crate::error::ConversionError;
use crate::fspath::{parent, parent_of};
use crate::security::css::{opt_view, sanitize_result, stylesheet_outcome};
use crate::text::owned;

verus! {

/// The default of switches that are on unless turned off.
pub fn default_true() -> (r: bool)
    ensures
        r,
{
    true
}

/// PDF-specific rendering options typically provided in Markdown front matter.
///
/// The page scale factor, a floating-point number, is kept by the program that drives the
/// browser.
pub struct PdfOptions {
    /// Page format: A4, Letter, Legal, etc.
    pub format: Option<String>,
    /// Top margin in CSS units (e.g., "20mm", "1in").
    pub margin_top: Option<String>,
    /// Bottom margin in CSS units.
    pub margin_bottom: Option<String>,
    /// Left margin in CSS units.
    pub margin_left: Option<String>,
    /// Right margin in CSS units.
    pub margin_right: Option<String>,
    /// Shorthand for all margins. Individual margins take precedence.
    pub margin: Option<String>,
    /// Whether to print background graphics (on when the document does not say).
    pub print_background: bool,
    /// Whether to use landscape orientation.
    pub landscape: bool,
    /// Optional HTML template for the page header.
    pub header_template: Option<String>,
    /// Optional HTML template for the page footer.
    pub footer_template: Option<String>,
}

impl Default for PdfOptions {
    /// No options given: every text field absent, background graphics printed, portrait.
    fn default() -> (r: Self)
        ensures
            r.format.is_none(),
            r.margin_top.is_none(),
            r.margin_bottom.is_none(),
            r.margin_left.is_none(),
            r.margin_right.is_none(),
            r.margin.is_none(),
            r.print_background,
            !r.landscape,
            r.header_template.is_none(),
            r.footer_template.is_none(),
    {
        PdfOptions {
            format: None,
            margin_top: None,
            margin_bottom: None,
            margin_left: None,
            margin_right: None,
            margin: None,
            print_background: default_true(),
            landscape: false,
            header_template: None,
            footer_template: None,
        }
    }
}

/// Metadata and options extracted from the Markdown document's YAML front matter.
pub struct FrontMatter {
    /// Title of the document.
    pub title: Option<String>,
    /// Author of the document.
    pub author: Option<String>,
    /// Publication or creation date.
    pub date: Option<String>,
    /// Short description/abstract for metadata.
    pub description: Option<String>,
    /// Keywords for SEO and metadata.
    pub keywords: Option<Vec<String>>,
    /// Path to a CSS file or a literal block of CSS rules.
    pub css: Option<String>,
    /// Rendering options specific to PDF output.
    pub pdf_options: PdfOptions,
    /// Document language code (e.g., "en", "ja").
    pub lang: Option<String>,
    /// Syntax highlighting theme (e.g., "base16-ocean.dark").
    pub highlight_theme: Option<String>,
}

impl Default for FrontMatter {
    /// A document without front matter.
    fn default() -> (r: Self)
        ensures
            r.title.is_none(),
            r.author.is_none(),
            r.date.is_none(),
            r.description.is_none(),
            r.keywords.is_none(),
            r.css.is_none(),
            r.lang.is_none(),
            r.highlight_theme.is_none(),
            r.pdf_options.format.is_none(),
            r.pdf_options.margin.is_none(),
            r.pdf_options.print_background,
            !r.pdf_options.landscape,
    {
        FrontMatter {
            title: None,
            author: None,
            date: None,
            description: None,
            keywords: None,
            css: None,
            pdf_options: PdfOptions::default(),
            lang: None,
            highlight_theme: None,
        }
    }
}

/// Shared configuration file (YAML) mapping to CLI arguments.
pub struct ConfigFile {
    pub css: Option<String>,
    pub highlight_theme: Option<String>,
    pub format: Option<Vec<OutputFormat>>,
    pub chrome_path: Option<String>,
    pub timeout: Option<u64>,
    pub max_file_size: Option<u64>,
    pub allow_external_css: Option<bool>,
    pub no_sandbox: Option<bool>,
    pub output_dir: Option<String>,
}

impl Default for ConfigFile {
    /// An empty configuration file: nothing is set.
    fn default() -> (r: Self)
        ensures
            r.css.is_none(),
            r.highlight_theme.is_none(),
            r.format.is_none(),
            r.chrome_path.is_none(),
            r.timeout.is_none(),
            r.max_file_size.is_none(),
            r.allow_external_css.is_none(),
            r.no_sandbox.is_none(),
            r.output_dir.is_none(),
    {
        ConfigFile {
            css: None,
            highlight_theme: None,
            format: None,
            chrome_path: None,
            timeout: None,
            max_file_size: None,
            allow_external_css: None,
            no_sandbox: None,
            output_dir: None,
        }
    }
}

/// The final, validated configuration used for the conversion process.
///
/// It is made by merging the command-line arguments, the configuration file and the document's
/// front matter.
pub struct ConversionConfig {
    /// Merged metadata from the document.
    pub front_matter: FrontMatter,
    /// Sanitized CSS content to be injected into the template.
    pub css_content: Option<String>,
    /// Syntax highlighting theme to use.
    pub highlight_theme: String,
    /// Path to the Chrome/Chromium executable, when one is configured.
    pub chrome_path: Option<String>,
    /// List of formats to generate.
    pub output_formats: Vec<OutputFormat>,
    /// Maximum allowed input file size in bytes.
    pub max_file_size_bytes: u64,
    /// Timeout for browser-based rendering operations.
    pub timeout_secs: u64,
    /// Whether to allow loading CSS from outside the input directory.
    pub allow_external_css: bool,
    /// Whether to bypass the Chrome sandbox (use with caution).
    pub no_sandbox: bool,
    /// The directory containing the input file (used for relative path resolution).
    pub input_dir: String,
    /// Target directory for output files.
    pub output_dir: Option<String>,
}

/// Where the style sheet of a conversion comes from.
pub enum CssSource {
    /// The file named by `--css`.
    CliFile(String),
    /// The file named by the configuration file.
    ConfigFile(String),
    /// The file named by the front matter. Unless `external_allowed`, it must lie within the
    /// input file's directory.
    DocumentFile { path: String, external_allowed: bool },
    /// CSS rules written in the front matter itself.
    Inline(String),
    /// No style sheet.
    NoCss,
}

/// The first of `a` and `b` that is present.
pub open spec fn first_some<T>(a: Option<T>, b: Option<T>) -> Option<T> {
    if a is Some {
        a
    } else {
        b
    }
}

/// Loading CSS from outside the input directory is allowed, by the command line or by the
/// configuration file.
pub open spec fn external_css_allowed(args: Args, config_file: ConfigFile) -> bool {
    args.allow_external_css || config_file.allow_external_css == Some(true)
}

/// The style sheet a conversion uses: the command line's file, else the configuration file's,
/// else the front matter's `css` entry, which names a file when such a path exists and is
/// otherwise taken as CSS rules.
pub open spec fn css_source_of(
    args: Args,
    config_file: ConfigFile,
    front_matter: FrontMatter,
    document_css_exists: bool,
) -> CssSource {
    if args.css is Some {
        CssSource::CliFile(args.css.unwrap())
    } else if config_file.css is Some {
        CssSource::ConfigFile(config_file.css.unwrap())
    } else if front_matter.css is Some {
        if document_css_exists {
            CssSource::DocumentFile {
                path: front_matter.css.unwrap(),
                external_allowed: external_css_allowed(args, config_file),
            }
        } else {
            CssSource::Inline(front_matter.css.unwrap())
        }
    } else {
        CssSource::NoCss
    }
}

fn clone_opt(o: &Option<String>) -> (r: Option<String>)
    ensures
        opt_view(r) == opt_view(*o),
        r is Some == o is Some,
{
    match o {
        Some(s) => Some(s.clone()),
        None => None,
    }
}

/// Chooses where the conversion's style sheet comes from. `document_css_exists` says whether
/// the front matter's `css` entry names an existing path.
pub fn css_source(
    args: &Args,
    config_file: &ConfigFile,
    front_matter: &FrontMatter,
    document_css_exists: bool,
) -> (r: CssSource)
    ensures
        r == css_source_of(*args, *config_file, *front_matter, document_css_exists),
{
    if let Some(p) = &args.css {
        CssSource::CliFile(p.clone())
    } else if let Some(p) = &config_file.css {
        CssSource::ConfigFile(p.clone())
    } else if let Some(c) = &front_matter.css {
        if document_css_exists {
            let allowed = args.allow_external_css || match config_file.allow_external_css {
                Some(b) => b,
                None => false,
            };
            CssSource::DocumentFile { path: c.clone(), external_allowed: allowed }
        } else {
            CssSource::Inline(c.clone())
        }
    } else {
        CssSource::NoCss
    }
}

/// The name of the default syntax highlighting theme.
pub open spec fn default_theme() -> Seq<char> {
    "base16-ocean.dark"@
}

/// The size limit in megabytes: the command line's, else the configuration file's, else 10.
pub open spec fn size_limit_mb(args: Args, config_file: ConfigFile) -> u64 {
    match args.max_file_size {
        Some(m) => m,
        None => match config_file.max_file_size {
            Some(m) => m,
            None => DEFAULT_MAX_FILE_SIZE_MB,
        },
    }
}

/// The timeout in seconds: the command line's, else the configuration file's, else 30.
pub open spec fn timeout_of(args: Args, config_file: ConfigFile) -> u64 {
    match args.timeout {
        Some(t) => t,
        None => match config_file.timeout {
            Some(t) => t,
            None => DEFAULT_TIMEOUT_SECS,
        },
    }
}

/// The formats of a conversion: the command line's, else the configuration file's, else PDF.
pub open spec fn formats_of(args: Args, config_file: ConfigFile) -> Seq<OutputFormat> {
    match args.format {
        Some(f) => f@,
        None => match config_file.format {
            Some(f) => f@,
            None => seq![OutputFormat::Pdf],
        },
    }
}

fn copy_formats(v: &Vec<OutputFormat>) -> (r: Vec<OutputFormat>)
    ensures
        r@ == v@,
{
    let mut r: Vec<OutputFormat> = Vec::new();
    let mut i: usize = 0;
    while i < v.len()
        invariant
            i <= v@.len(),
            r@ == v@.take(i as int),
        decreases v.len() - i,
    {
        r.push(v[i]);
        assert(v@.take(i + 1) =~= v@.take(i as int).push(v@[i as int]));
        i = i + 1;
    }
    assert(v@.take(v@.len() as int) =~= v@);
    r
}

/// The style sheet of a conversion after sanitization, or the sanitizer's message.
pub open spec fn sanitized_css(css: Option<Seq<char>>) -> Result<Option<Seq<char>>, Option<Seq<char>>> {
    match css {
        None => Ok(None),
        Some(t) => match sanitize_result(stylesheet_outcome(t, true)) {
            Ok(c) => Ok(Some(c)),
            Err(m) => Err(m),
        },
    }
}

/// The style sheet of a merged configuration, or the message of a `Security` error.
pub open spec fn css_view(r: Result<ConversionConfig, ConversionError>) -> Result<
    Option<Seq<char>>,
    Option<Seq<char>>,
> {
    match r {
        Ok(c) => Ok(opt_view(c.css_content)),
        Err(ConversionError::Security(m)) => Err(Some(m@)),
        Err(_) => Err(None),
    }
}

/// The directory of an input: its parent directory, or `.` when the path has none.
pub open spec fn input_dir_spec(input_path: Seq<char>) -> Seq<char> {
    match parent_of(input_path) {
        Some(d) => d,
        None => "."@,
    }
}

/// The directory of an input, against which the paths it names are resolved.
pub fn input_dir_of(input_path: &str) -> (r: String)
    ensures
        r@ == input_dir_spec(input_path@),
{
    match parent(input_path) {
        Some(d) => d,
        None => {
            proof {
                reveal_strlit(".");
            }
            owned(".")
        },
    }
}

impl ConversionConfig {
    /// Merges the command-line arguments, the configuration file and the document's front
    /// matter into the configuration of one conversion.
    ///
    /// `input_path` is the path of the input file, and `css_text` the text of the style sheet
    /// that `css_source` chose (the file's content, or the inline rules), which is sanitized
    /// here. The highlighting theme is the front matter's, else the configuration file's, else
    /// `base16-ocean.dark`; the formats, the Chrome path, the output directory, the timeout and
    /// the size limit are the command line's, else the configuration file's (else PDF, 30
    /// seconds and 10 MB); the two switches are on when either source turns them on.
    pub fn assemble(
        args: &Args,
        config_file: ConfigFile,
        front_matter: FrontMatter,
        input_path: &str,
        css_text: Option<String>,
    ) -> (r: Result<ConversionConfig, ConversionError>)
        requires
            size_limit_mb(*args, config_file) * 1048576 <= u64::MAX,
        ensures
            css_view(r) == sanitized_css(opt_view(css_text)),
            r matches Ok(c) ==> {
                &&& c.front_matter == front_matter
                &&& c.highlight_theme@ == match first_some(
                    opt_view(front_matter.highlight_theme),
                    opt_view(config_file.highlight_theme),
                ) {
                    Some(t) => t,
                    None => default_theme(),
                }
                &&& opt_view(c.chrome_path) == first_some(
                    opt_view(args.chrome_path),
                    opt_view(config_file.chrome_path),
                )
                &&& c.output_formats@ == formats_of(*args, config_file)
                &&& c.max_file_size_bytes == size_limit_mb(*args, config_file) * 1048576
                &&& c.timeout_secs == timeout_of(*args, config_file)
                &&& c.allow_external_css == external_css_allowed(*args, config_file)
                &&& c.no_sandbox == (args.no_sandbox || config_file.no_sandbox == Some(true))
                &&& c.input_dir@ == input_dir_spec(input_path@)
                &&& opt_view(c.output_dir) == first_some(
                    opt_view(args.output_dir),
                    opt_view(config_file.output_dir),
                )
            },
    {
        let css_content = match css_text {
            Some(t) => match crate::security::sanitize_css(t.as_str()) {
                Ok(c) => Some(c),
                Err(e) => {
                    return Err(e);
                },
            },
            None => None,
        };
        let input_dir = input_dir_of(input_path);
        let highlight_theme = match clone_opt(&front_matter.highlight_theme) {
            Some(t) => t,
            None => match config_file.highlight_theme {
                Some(t) => t,
                None => {
                    proof {
                        reveal_strlit("base16-ocean.dark");
                    }
                    owned("base16-ocean.dark")
                },
            },
        };
        let output_formats = match &args.format {
            Some(f) => copy_formats(f),
            None => match config_file.format {
                Some(f) => f,
                None => vec![OutputFormat::Pdf],
            },
        };
        let chrome_path = match &args.chrome_path {
            Some(p) => Some(p.clone()),
            None => config_file.chrome_path,
        };
        let output_dir = match &args.output_dir {
            Some(p) => Some(p.clone()),
            None => config_file.output_dir,
        };
        let mb = match args.max_file_size {
            Some(m) => m,
            None => match config_file.max_file_size {
                Some(m) => m,
                None => DEFAULT_MAX_FILE_SIZE_MB,
            },
        };
        let timeout_secs = match args.timeout {
            Some(t) => t,
            None => match config_file.timeout {
                Some(t) => t,
                None => DEFAULT_TIMEOUT_SECS,
            },
        };
        let allow_external_css = args.allow_external_css || match config_file.allow_external_css {
            Some(b) => b,
            None => false,
        };
        let no_sandbox = args.no_sandbox || match config_file.no_sandbox {
            Some(b) => b,
            None => false,
        };
        Ok(ConversionConfig {
            front_matter,
            css_content,
            highlight_theme,
            chrome_path,
            output_formats,
            max_file_size_bytes: mb * 1048576,
            timeout_secs,
            allow_external_css,
            no_sandbox,
            input_dir,
            output_dir,
        })
    }
}

/// The command line's `--css` file is the style sheet whenever it is given, whatever the
/// configuration file and the front matter say; without it, the configuration file's style
/// sheet is used whenever it names one; the front matter's `css` entry is used only when neither
/// names a file, as a file when such a path exists and as CSS rules otherwise.
pub proof fn lemma_css_source_precedence(
    args: Args,
    config_file: ConfigFile,
    front_matter: FrontMatter,
    document_css_exists: bool,
)
    ensures
        args.css matches Some(p) ==> css_source_of(args, config_file, front_matter, document_css_exists)
            == CssSource::CliFile(p),
        args.css is None ==> (config_file.css matches Some(p) ==> css_source_of(
            args,
            config_file,
            front_matter,
            document_css_exists,
        ) == CssSource::ConfigFile(p)),
        args.css is None && config_file.css is None ==> (front_matter.css matches Some(c) ==> (
        if document_css_exists {
            css_source_of(args, config_file, front_matter, document_css_exists)
                == CssSource::DocumentFile {
                path: c,
                external_allowed: args.allow_external_css || config_file.allow_external_css
                    == Some(true),
            }
        } else {
            css_source_of(args, config_file, front_matter, document_css_exists)
                == CssSource::Inline(c)
        })),
        args.css is None && config_file.css is None && front_matter.css is None ==> css_source_of(
            args,
            config_file,
            front_matter,
            document_css_exists,
        ) is NoCss,
{
}

/// A value given on the command line wins over the configuration file, which wins over the
/// default: for the formats, the timeout and the size limit.
pub proof fn lemma_command_line_wins(args: Args, config_file: ConfigFile)
    ensures
        args.format matches Some(f) ==> formats_of(args, config_file) == f@,
        args.format is None ==> (config_file.format matches Some(f) ==> formats_of(args, config_file)
            == f@),
        args.format is None && config_file.format is None ==> formats_of(args, config_file) == seq![
            OutputFormat::Pdf,
        ],
        args.timeout matches Some(t) ==> timeout_of(args, config_file) == t,
        args.timeout is None ==> (config_file.timeout matches Some(t) ==> timeout_of(args, config_file)
            == t),
        args.timeout is None && config_file.timeout is None ==> timeout_of(args, config_file) == 30,
        args.max_file_size matches Some(m) ==> size_limit_mb(args, config_file) == m,
        args.max_file_size is None ==> (config_file.max_file_size matches Some(m) ==> size_limit_mb(
            args,
            config_file,
        ) == m),
        args.max_file_size is None && config_file.max_file_size is None ==> size_limit_mb(
            args,
            config_file,
        ) == 10,
{
}

} // verus!

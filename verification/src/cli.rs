//! Command-line options of the converter and the checks made on them.
use vstd::prelude::*;
use crate::text::{concat, owned};

verus! {

/// Supported output formats for the conversion.
#[derive(Clone, Copy, Debug, PartialEq, Eq, Structural)]
pub enum OutputFormat {
    /// Portable Document Format (Headless Chrome required)
    Pdf,
    /// Standard HTML5 document
    Html,
}

impl OutputFormat {
    /// The lower-case name of the format, as it is written on the command line and in files.
    pub fn name(&self) -> (r: &'static str)
        ensures
            *self == OutputFormat::Pdf ==> r@ == "pdf"@,
            *self == OutputFormat::Html ==> r@ == "html"@,
    {
        proof {
            reveal_strlit("pdf");
            reveal_strlit("html");
        }
        match self {
            OutputFormat::Pdf => "pdf",
            OutputFormat::Html => "html",
        }
    }

    /// The format with the given lower-case name, if there is one.
    pub fn from_name(name: &str) -> (r: Option<OutputFormat>)
        ensures
            r == (if name@ == "pdf"@ {
                Some(OutputFormat::Pdf)
            } else if name@ == "html"@ {
                Some(OutputFormat::Html)
            } else {
                None
            }),
    {
        proof {
            reveal_strlit("pdf");
            reveal_strlit("html");
        }
        if crate::text::str_eq(name, "pdf") {
            Some(OutputFormat::Pdf)
        } else if crate::text::str_eq(name, "html") {
            Some(OutputFormat::Html)
        } else {
            None
        }
    }
}

/// The file size limit, in megabytes, when none is given.
pub const DEFAULT_MAX_FILE_SIZE_MB: u64 = 10;

/// The PDF generation timeout, in seconds, when none is given.
pub const DEFAULT_TIMEOUT_SECS: u64 = 30;

/// Command-line arguments for the `md-conv` tool.
pub struct Args {
    /// Input Markdown file(s)
    pub input: Vec<String>,
    /// Read Markdown content from standard input
    pub stdin: bool,
    /// Output format(s)
    pub format: Option<Vec<OutputFormat>>,
    /// Custom CSS file path
    pub css: Option<String>,
    /// Output file path (only valid with single input)
    pub output: Option<String>,
    /// Write HTML output to standard output (implies --quiet)
    pub stdout: bool,
    /// Output directory for all converted files
    pub output_dir: Option<String>,
    /// Output JSON summary of the conversion process
    pub json: bool,
    /// Path to a configuration file (YAML)
    pub config: Option<String>,
    /// Watch for changes and re-compile
    pub watch: bool,
    /// Suppress all output except errors
    pub quiet: bool,
    /// Verbose logging (-v info, -vv debug, -vvv trace)
    pub verbose: u8,
    /// Chrome/Chromium executable path (auto-detected if not specified)
    pub chrome_path: Option<String>,
    /// Maximum file size in MB, when given (default: 10)
    pub max_file_size: Option<u64>,
    /// PDF generation timeout in seconds, when given (default: 30)
    pub timeout: Option<u64>,
    /// Allow CSS from paths outside the input file directory
    pub allow_external_css: bool,
    /// DANGEROUS: Disable Chrome sandbox
    pub no_sandbox: bool,
}

impl Default for Args {
    fn default() -> (r: Self)
        ensures
            r.input@.len() == 0,
            !r.stdin,
            r.format.is_none(),
            r.css.is_none(),
            r.output.is_none(),
            !r.stdout,
            r.output_dir.is_none(),
            !r.json,
            r.config.is_none(),
            !r.watch,
            !r.quiet,
            r.verbose == 0,
            r.chrome_path.is_none(),
            r.max_file_size.is_none(),
            r.timeout.is_none(),
            !r.allow_external_css,
            !r.no_sandbox,
    {
        Args {
            input: Vec::new(),
            stdin: false,
            format: None,
            css: None,
            output: None,
            stdout: false,
            output_dir: None,
            json: false,
            config: None,
            watch: false,
            quiet: false,
            verbose: 0,
            chrome_path: None,
            max_file_size: None,
            timeout: None,
            allow_external_css: false,
            no_sandbox: false,
        }
    }
}

/// What the file system says of one path named on the command line.
#[derive(Clone, Copy, Debug, PartialEq, Eq, Structural)]
pub struct PathStatus {
    /// The path exists.
    pub exists: bool,
    /// The path names a regular file.
    pub is_file: bool,
}

/// What the file system says of every path that `Args::validate` checks.
pub struct PathFacts {
    /// One status per input path, in the order of `Args::input`.
    pub inputs: Vec<PathStatus>,
    /// The status of the CSS path, when one is given.
    pub css: Option<PathStatus>,
    /// The status of the Chrome path, when one is given.
    pub chrome: Option<PathStatus>,
}

impl PathFacts {
    /// The facts describe exactly the paths named by `args`.
    pub open spec fn describes(&self, args: &Args) -> bool {
        &&& self.inputs@.len() == args.input@.len()
        &&& self.css.is_some() == args.css.is_some()
        &&& self.chrome.is_some() == args.chrome_path.is_some()
    }
}

/// Why a set of command-line arguments is refused.
#[derive(Debug)]
pub enum ArgsError {
    /// `--output` was given together with several inputs.
    OutputWithMultipleInputs,
    /// An input file does not exist.
    InputNotFound(String),
    /// An input path is not a file.
    InputNotAFile(String),
    /// PDF output was asked for on standard output.
    PdfToStdout,
    /// Standard output was asked for with several inputs.
    StdoutWithMultipleInputs,
    /// `--watch` was given with `--stdin`.
    WatchWithStdin,
    /// The CSS file does not exist.
    CssNotFound(String),
    /// The CSS path is not a file.
    CssNotAFile(String),
    /// The Chrome executable does not exist.
    ChromeNotFound(String),
    /// The timeout is zero seconds.
    ZeroTimeout,
    /// The file size limit is zero megabytes.
    ZeroMaxFileSize,
}

impl ArgsError {
    /// The message shown to the user.
    pub fn message(&self) -> (r: String)
        ensures
            match self {
                ArgsError::OutputWithMultipleInputs => r@
                    == "Cannot use --output with multiple input files"@,
                ArgsError::InputNotFound(p) => r@ == "Input file not found: "@ + p@,
                ArgsError::InputNotAFile(p) => r@ == "Input path is not a file: "@ + p@,
                ArgsError::PdfToStdout => r@
                    == "PDF output to stdout is currently not supported. Please use -f html."@,
                ArgsError::StdoutWithMultipleInputs => r@
                    == "Cannot write to stdout with multiple input files."@,
                ArgsError::WatchWithStdin => r@ == "Cannot use --watch with --stdin."@,
                ArgsError::CssNotFound(p) => r@ == "CSS file not found: "@ + p@,
                ArgsError::CssNotAFile(p) => r@ == "CSS path is not a file: "@ + p@,
                ArgsError::ChromeNotFound(p) => r@ == "Chrome executable not found: "@ + p@,
                ArgsError::ZeroTimeout => r@ == "Timeout must be greater than 0 seconds."@,
                ArgsError::ZeroMaxFileSize => r@ == "Maximum file size must be greater than 0 MB."@,
            },
    {
        match self {
            ArgsError::OutputWithMultipleInputs => owned(
                "Cannot use --output with multiple input files",
            ),
            ArgsError::InputNotFound(p) => concat("Input file not found: ", p.as_str()),
            ArgsError::InputNotAFile(p) => concat("Input path is not a file: ", p.as_str()),
            ArgsError::PdfToStdout => owned(
                "PDF output to stdout is currently not supported. Please use -f html.",
            ),
            ArgsError::StdoutWithMultipleInputs => owned(
                "Cannot write to stdout with multiple input files.",
            ),
            ArgsError::WatchWithStdin => owned("Cannot use --watch with --stdin."),
            ArgsError::CssNotFound(p) => concat("CSS file not found: ", p.as_str()),
            ArgsError::CssNotAFile(p) => concat("CSS path is not a file: ", p.as_str()),
            ArgsError::ChromeNotFound(p) => concat("Chrome executable not found: ", p.as_str()),
            ArgsError::ZeroTimeout => owned("Timeout must be greater than 0 seconds."),
            ArgsError::ZeroMaxFileSize => owned("Maximum file size must be greater than 0 MB."),
        }
    }
}

/// The first refused input path, from position `i` on: a missing path, then a path that is
/// not a file.
pub open spec fn input_check(paths: Seq<String>, st: Seq<PathStatus>, i: int) -> Option<ArgsError>
    decreases paths.len() - i,
{
    if i < 0 || i >= paths.len() {
        None
    } else if !st[i].exists {
        Some(ArgsError::InputNotFound(paths[i]))
    } else if !st[i].is_file {
        Some(ArgsError::InputNotAFile(paths[i]))
    } else {
        input_check(paths, st, i + 1)
    }
}

/// PDF is among the formats.
pub open spec fn has_pdf(formats: Seq<OutputFormat>) -> bool {
    exists|i: int| 0 <= i < formats.len() && formats[i] == OutputFormat::Pdf
}

/// The outcome of `Args::validate`: the first check that fails, in the order in which they are
/// made, or success.
pub open spec fn validation(args: Args, facts: PathFacts) -> Result<(), ArgsError> {
    if args.input@.len() > 1 && args.output.is_some() {
        Err(ArgsError::OutputWithMultipleInputs)
    } else if input_check(args.input@, facts.inputs@, 0).is_some() {
        Err(input_check(args.input@, facts.inputs@, 0).unwrap())
    } else if args.stdout && args.format.is_some() && has_pdf(args.format.unwrap()@) {
        Err(ArgsError::PdfToStdout)
    } else if args.stdout && args.input@.len() > 1 {
        Err(ArgsError::StdoutWithMultipleInputs)
    } else if args.watch && args.stdin {
        Err(ArgsError::WatchWithStdin)
    } else if args.css.is_some() && !facts.css.unwrap().exists {
        Err(ArgsError::CssNotFound(args.css.unwrap()))
    } else if args.css.is_some() && !facts.css.unwrap().is_file {
        Err(ArgsError::CssNotAFile(args.css.unwrap()))
    } else if args.chrome_path.is_some() && !facts.chrome.unwrap().exists {
        Err(ArgsError::ChromeNotFound(args.chrome_path.unwrap()))
    } else if args.timeout == Some(0u64) {
        Err(ArgsError::ZeroTimeout)
    } else if args.max_file_size == Some(0u64) {
        Err(ArgsError::ZeroMaxFileSize)
    } else {
        Ok(())
    }
}

fn contains_pdf(formats: &Vec<OutputFormat>) -> (r: bool)
    ensures
        r == has_pdf(formats@),
{
    let mut i: usize = 0;
    while i < formats.len()
        invariant
            i <= formats@.len(),
            forall|k: int| 0 <= k < i ==> formats@[k] != OutputFormat::Pdf,
        decreases formats.len() - i,
    {
        if formats[i] == OutputFormat::Pdf {
            return true;
        }
        i = i + 1;
    }
    false
}

fn check_inputs(paths: &Vec<String>, st: &Vec<PathStatus>) -> (r: Option<ArgsError>)
    requires
        paths@.len() == st@.len(),
    ensures
        r == input_check(paths@, st@, 0),
{
    let n = paths.len();
    let mut i: usize = 0;
    while i < n
        invariant
            n == paths@.len(),
            n == st@.len(),
            i <= n,
            input_check(paths@, st@, 0) == input_check(paths@, st@, i as int),
        decreases n - i,
    {
        if !st[i].exists {
            return Some(ArgsError::InputNotFound(paths[i].clone()));
        }
        if !st[i].is_file {
            return Some(ArgsError::InputNotAFile(paths[i].clone()));
        }
        i = i + 1;
    }
    None
}

impl Args {
    /// Validates CLI arguments before processing, given what the file system says of the paths
    /// they name.
    ///
    /// Checks, in this order: `--output` with several inputs; that each input exists and is a
    /// file; PDF or several inputs with `--stdout`; `--watch` with `--stdin`; that the CSS file
    /// exists and is a file; that the Chrome path exists; that the timeout and the file size
    /// limit are not zero.
    pub fn validate(&self, facts: &PathFacts) -> (r: Result<(), ArgsError>)
        requires
            facts.describes(self),
        ensures
            r == validation(*self, *facts),
    {
        if self.input.len() > 1 && self.output.is_some() {
            return Err(ArgsError::OutputWithMultipleInputs);
        }
        let bad = check_inputs(&self.input, &facts.inputs);
        if let Some(e) = bad {
            return Err(e);
        }
        if self.stdout {
            if let Some(formats) = &self.format {
                if contains_pdf(formats) {
                    return Err(ArgsError::PdfToStdout);
                }
            }
            if self.input.len() > 1 {
                return Err(ArgsError::StdoutWithMultipleInputs);
            }
        }
        if self.watch && self.stdin {
            return Err(ArgsError::WatchWithStdin);
        }
        if let Some(css) = &self.css {
            let st = facts.css.unwrap();
            if !st.exists {
                return Err(ArgsError::CssNotFound(css.clone()));
            }
            if !st.is_file {
                return Err(ArgsError::CssNotAFile(css.clone()));
            }
        }
        if let Some(chrome) = &self.chrome_path {
            let st = facts.chrome.unwrap();
            if !st.exists {
                return Err(ArgsError::ChromeNotFound(chrome.clone()));
            }
        }
        if let Some(0u64) = self.timeout {
            return Err(ArgsError::ZeroTimeout);
        }
        if let Some(0u64) = self.max_file_size {
            return Err(ArgsError::ZeroMaxFileSize);
        }
        Ok(())
    }

    /// The file size limit in megabytes: the one given, else 10.
    pub fn max_file_size_mb(&self) -> (r: u64)
        ensures
            r == match self.max_file_size {
                Some(m) => m,
                None => DEFAULT_MAX_FILE_SIZE_MB,
            },
    {
        match self.max_file_size {
            Some(m) => m,
            None => DEFAULT_MAX_FILE_SIZE_MB,
        }
    }

    /// Maps the CLI verbosity count (-v, -vv, -vvv) to a standard log level string.
    pub fn log_level(&self) -> (r: &'static str)
        ensures
            self.verbose == 0 ==> r@ == "warn"@,
            self.verbose == 1 ==> r@ == "info"@,
            self.verbose == 2 ==> r@ == "debug"@,
            self.verbose >= 3 ==> r@ == "trace"@,
    {
        proof {
            reveal_strlit("warn");
            reveal_strlit("info");
            reveal_strlit("debug");
            reveal_strlit("trace");
        }
        match self.verbose {
            0 => "warn",
            1 => "info",
            2 => "debug",
            _ => "trace",
        }
    }
}

proof fn lemma_input_check_none(paths: Seq<String>, st: Seq<PathStatus>, i: int)
    requires
        0 <= i <= paths.len(),
        st.len() == paths.len(),
    ensures
        input_check(paths, st, i) is None <==> forall|k: int|
            i <= k < paths.len() ==> (#[trigger] st[k]).exists && st[k].is_file,
    decreases paths.len() - i,
{
    if i < paths.len() {
        lemma_input_check_none(paths, st, i + 1);
    }
}

/// The arguments are accepted exactly when every check passes: `--output` comes with at most one
/// input; every input exists and is a file; `--stdout` asks for no PDF and comes with at most one
/// input; `--watch` does not come with `--stdin`; the CSS path, when given, exists and is a
/// file; the Chrome path, when given, exists; and neither the timeout nor the size limit is
/// zero.
pub proof fn lemma_validation_accepts_exactly(args: Args, facts: PathFacts)
    requires
        facts.describes(&args),
    ensures
        validation(args, facts) is Ok <==> {
            &&& !(args.input@.len() > 1 && args.output is Some)
            &&& forall|k: int|
                0 <= k < args.input@.len() ==> (#[trigger] facts.inputs@[k]).exists
                    && facts.inputs@[k].is_file
            &&& !(args.stdout && args.format is Some && exists|k: int|
                0 <= k < args.format.unwrap()@.len() && args.format.unwrap()@[k]
                    == OutputFormat::Pdf)
            &&& !(args.stdout && args.input@.len() > 1)
            &&& !(args.watch && args.stdin)
            &&& (args.css is Some ==> facts.css.unwrap().exists && facts.css.unwrap().is_file)
            &&& (args.chrome_path is Some ==> facts.chrome.unwrap().exists)
            &&& args.timeout != Some(0u64)
            &&& args.max_file_size != Some(0u64)
        },
{
    lemma_input_check_none(args.input@, facts.inputs@, 0);
}

/// `--output` with several inputs is refused before anything else is looked at; otherwise the
/// first missing input (in order) is the one named when the inputs before it are files.
pub proof fn lemma_validation_reports_first_problem(args: Args, facts: PathFacts, k: int)
    requires
        facts.describes(&args),
        0 <= k < args.input@.len(),
        forall|j: int| 0 <= j < k ==> (#[trigger] facts.inputs@[j]).exists && facts.inputs@[j].is_file,
        !facts.inputs@[k].exists,
    ensures
        args.input@.len() > 1 && args.output is Some ==> validation(args, facts) == Err::<
            (),
            ArgsError,
        >(ArgsError::OutputWithMultipleInputs),
        !(args.input@.len() > 1 && args.output is Some) ==> validation(args, facts) == Err::<
            (),
            ArgsError,
        >(ArgsError::InputNotFound(args.input@[k])),
{
    lemma_input_check_skip(args.input@, facts.inputs@, 0, k);
}

proof fn lemma_input_check_skip(paths: Seq<String>, st: Seq<PathStatus>, i: int, k: int)
    requires
        0 <= i <= k < paths.len(),
        st.len() == paths.len(),
        forall|j: int| i <= j < k ==> (#[trigger] st[j]).exists && st[j].is_file,
        !st[k].exists,
    ensures
        input_check(paths, st, i) == Some(ArgsError::InputNotFound(paths[k])),
    decreases k - i,
{
    if i < k {
        lemma_input_check_skip(paths, st, i + 1, k);
    }
}

} // verus!

//! The decisions of a conversion run: which inputs are converted, where each output goes, how
//! the run is summed up and when it fails, and what a change seen in watch mode triggers.
use vstd::prelude::*;
use crate::cli::Args;
use crate::error::ConversionError;
use crate::fspath::{
    extension, extension_of, file_name, file_name_of, join_path, joined, no_separator,
    with_extension, with_extension_of,
};
use crate::security::css::opt_view;
use crate::security::path::{decimal, decimal_text};
use crate::text::{concat, concat3, lowercase, owned, str_eq, to_lowercase, views};

verus! {

/// Maximum concurrent file conversions.
pub const MAX_CONCURRENT_CONVERSIONS: usize = 4;

/// Source of the input content.
pub enum InputSource {
    /// A file, by its path.
    File(String),
    /// Standard input.
    Stdin,
}

impl InputSource {
    /// How the source is named in messages: the file's path, or `<stdin>`.
    pub fn display_name(&self) -> (r: String)
        ensures
            match self {
                InputSource::File(p) => r@ == p@,
                InputSource::Stdin => r@ == "<stdin>"@,
            },
    {
        match self {
            InputSource::File(p) => p.clone(),
            InputSource::Stdin => owned("<stdin>"),
        }
    }

    /// The path the content is treated as coming from: the file's path, or `stdin.md`.
    pub fn input_path(&self) -> (r: String)
        ensures
            match self {
                InputSource::File(p) => r@ == p@,
                InputSource::Stdin => r@ == "stdin.md"@,
            },
    {
        match self {
            InputSource::File(p) => p.clone(),
            InputSource::Stdin => owned("stdin.md"),
        }
    }
}

/// The sources of a run: standard input alone when it is asked for, else each input file in
/// order.
pub fn plan_inputs(args: &Args) -> (r: Vec<InputSource>)
    ensures
        args.stdin ==> r@.len() == 1 && r@[0] is Stdin,
        !args.stdin ==> r@.len() == args.input@.len() && forall|i: int|
            0 <= i < r@.len() ==> (#[trigger] r@[i] matches InputSource::File(p) && p@
                == args.input@[i]@),
{
    let mut r: Vec<InputSource> = Vec::new();
    if args.stdin {
        r.push(InputSource::Stdin);
        return r;
    }
    let mut i: usize = 0;
    while i < args.input.len()
        invariant
            !args.stdin,
            i <= args.input@.len(),
            r@.len() == i,
            forall|k: int|
                0 <= k < i ==> (#[trigger] r@[k] matches InputSource::File(p) && p@
                    == args.input@[k]@),
        decreases args.input.len() - i,
    {
        r.push(InputSource::File(args.input[i].clone()));
        i = i + 1;
    }
    r
}

/// Whether a progress bar is shown: not in quiet or JSON mode, and only when there is
/// something to convert.
pub fn shows_progress(args: &Args, inputs: usize) -> (r: bool)
    ensures
        r == (!args.quiet && !args.json && inputs > 0),
{
    !args.quiet && !args.json && inputs > 0
}

/// The number of bytes in `mb` megabytes.
pub fn megabytes(mb: u64) -> (r: u64)
    requires
        mb * 1048576 <= u64::MAX,
    ensures
        r == mb * 1048576,
{
    mb * 1048576
}

/// A path names a Jupyter notebook: its extension is `ipynb`, in any case.
pub open spec fn notebook_path(path: Seq<char>) -> bool {
    match extension_of(path) {
        Some(e) => lowercase(e) == "ipynb"@,
        None => false,
    }
}

/// Whether a lower-cased extension is the notebook extension `ipynb`.
pub fn is_notebook_extension(lower: &str) -> (r: bool)
    ensures
        r == (lower@ == "ipynb"@),
{
    proof {
        reveal_strlit("ipynb");
    }
    str_eq(lower, "ipynb")
}

/// Whether a path names a Jupyter notebook (extension `ipynb`, in any case).
pub fn is_notebook(path: &str) -> (r: bool)
    ensures
        r == notebook_path(path@),
{
    match extension(path) {
        Some(e) => is_notebook_extension(to_lowercase(e.as_str()).as_str()),
        None => false,
    }
}

/// Structured summary of a single conversion result.
pub struct ConversionResult {
    /// The input, as named in messages.
    pub input: String,
    /// The files written.
    pub output: Vec<String>,
    /// `success` or `error`.
    pub status: String,
    /// The error's message, for a failed conversion.
    pub error: Option<String>,
}

impl ConversionResult {
    /// The result of a conversion of `input` that wrote `output`.
    pub fn success(input: String, output: Vec<String>) -> (r: Self)
        ensures
            r.input == input,
            r.output == output,
            r.status@ == "success"@,
            r.error is None,
    {
        ConversionResult { input, output, status: owned("success"), error: None }
    }

    /// The result of a conversion of `input` that failed with `message`.
    pub fn failure(input: String, message: String) -> (r: Self)
        ensures
            r.input == input,
            r.output@.len() == 0,
            r.status@ == "error"@,
            r.error == Some(message),
    {
        ConversionResult {
            input,
            output: Vec::new(),
            status: owned("error"),
            error: Some(message),
        }
    }
}

/// Where one output goes.
pub enum OutputTarget {
    /// Standard output.
    Stdout,
    /// A file, by its path.
    File(String),
}

/// Where an output with extension `ext` goes: standard output for HTML when it is asked for;
/// else the explicit output path; else the output directory, under the input's file name (or
/// `output`) with the extension replaced; else beside the input (named `output` for standard
/// input), with the extension replaced.
pub open spec fn target_of(
    stdout: bool,
    ext: Seq<char>,
    explicit: Option<Seq<char>>,
    output_dir: Option<Seq<char>>,
    input_path: Seq<char>,
    from_stdin: bool,
) -> Option<Seq<char>> {
    if stdout && ext == "html"@ {
        None
    } else if explicit is Some {
        explicit
    } else if output_dir is Some {
        let name = match file_name_of(input_path) {
            Some(n) => n,
            None => "output"@,
        };
        Some(with_extension_of(joined(output_dir.unwrap(), name), ext))
    } else if from_stdin {
        Some(with_extension_of("output"@, ext))
    } else {
        Some(with_extension_of(input_path, ext))
    }
}

/// The view of an output target: `None` for standard output.
pub open spec fn target_view(t: OutputTarget) -> Option<Seq<char>> {
    match t {
        OutputTarget::Stdout => None,
        OutputTarget::File(p) => Some(p@),
    }
}

/// Determines where an output with the extension `ext` (which holds no path separator) is
/// written.
pub fn output_target(
    stdout: bool,
    ext: &str,
    explicit: &Option<String>,
    output_dir: &Option<String>,
    input_path: &str,
    from_stdin: bool,
) -> (r: OutputTarget)
    requires
        no_separator(ext@),
    ensures
        target_view(r) == target_of(
            stdout,
            ext@,
            opt_view(*explicit),
            opt_view(*output_dir),
            input_path@,
            from_stdin,
        ),
{
    proof {
        reveal_strlit("html");
        reveal_strlit("output");
    }
    if stdout && str_eq(ext, "html") {
        return OutputTarget::Stdout;
    }
    if let Some(p) = explicit {
        return OutputTarget::File(p.clone());
    }
    if let Some(dir) = output_dir {
        let name = match file_name(input_path) {
            Some(n) => n,
            None => owned("output"),
        };
        let p = join_path(dir.as_str(), name.as_str());
        return OutputTarget::File(with_extension(p.as_str(), ext));
    }
    if from_stdin {
        OutputTarget::File(with_extension("output", ext))
    } else {
        OutputTarget::File(with_extension(input_path, ext))
    }
}

/// Where outputs go: HTML asked for on standard output goes there and nowhere else; any other
/// output goes to the explicit output path whenever one is given, whether the input is a file or
/// standard input; without one, to the output directory under the input's file name (or
/// `output`), else beside the input (as `output` for standard input), the extension replaced.
pub proof fn lemma_output_target_precedence(
    stdout: bool,
    ext: Seq<char>,
    explicit: Option<Seq<char>>,
    output_dir: Option<Seq<char>>,
    input_path: Seq<char>,
    from_stdin: bool,
)
    ensures
        stdout && ext == "html"@ ==> target_of(
            stdout,
            ext,
            explicit,
            output_dir,
            input_path,
            from_stdin,
        ) is None,
        explicit matches Some(p) ==> (!(stdout && ext == "html"@) ==> target_of(
            stdout,
            ext,
            explicit,
            output_dir,
            input_path,
            from_stdin,
        ) == Some(p)),
        output_dir matches Some(d) ==> (!(stdout && ext == "html"@) && explicit is None ==> target_of(
            stdout,
            ext,
            explicit,
            output_dir,
            input_path,
            from_stdin,
        ) == Some(
            with_extension_of(
                joined(
                    d,
                    match file_name_of(input_path) {
                        Some(n) => n,
                        None => "output"@,
                    },
                ),
                ext,
            ),
        )),
        !(stdout && ext == "html"@) && explicit is None && output_dir is None ==> target_of(
            stdout,
            ext,
            explicit,
            output_dir,
            input_path,
            from_stdin,
        ) == Some(
            with_extension_of(
                if from_stdin {
                    "output"@
                } else {
                    input_path
                },
                ext,
            ),
        ),
{
}

/// The number of results with the given status.
pub open spec fn count_status(rs: Seq<ConversionResult>, status: Seq<char>) -> nat
    decreases rs.len(),
{
    if rs.len() == 0 {
        0
    } else {
        count_status(rs.drop_last(), status) + if rs.last().status@ == status {
            1nat
        } else {
            0nat
        }
    }
}

proof fn lemma_count_bounded(rs: Seq<ConversionResult>, status: Seq<char>)
    ensures
        count_status(rs, status) <= rs.len(),
    decreases rs.len(),
{
    if rs.len() > 0 {
        lemma_count_bounded(rs.drop_last(), status);
    }
}

/// The number of results with the given status.
pub fn count_with_status(rs: &Vec<ConversionResult>, status: &str) -> (r: usize)
    ensures
        r == count_status(rs@, status@),
{
    let mut n: usize = 0;
    let mut i: usize = 0;
    while i < rs.len()
        invariant
            i <= rs@.len(),
            n == count_status(rs@.take(i as int), status@),
            n <= i,
        decreases rs.len() - i,
    {
        assert(rs@.take(i + 1).drop_last() =~= rs@.take(i as int));
        if str_eq(rs[i].status.as_str(), status) {
            n = n + 1;
        }
        i = i + 1;
    }
    assert(rs@.take(rs@.len() as int) =~= rs@);
    n
}

/// The message of a failed run.
pub open spec fn failed_message(errors: nat) -> Seq<char> {
    decimal_text(errors as u64) + " file(s) failed to convert"@
}

/// The outcome of a run: outside JSON mode, it fails when a conversion failed and either quiet
/// mode is on or no conversion succeeded.
pub open spec fn run_outcome_of(rs: Seq<ConversionResult>, quiet: bool, json: bool) -> Result<
    (),
    Seq<char>,
> {
    let errors = count_status(rs, "error"@);
    let successes = count_status(rs, "success"@);
    if !json && errors > 0 && (quiet || successes == 0) {
        Err(failed_message(errors))
    } else {
        Ok(())
    }
}

/// The outcome of a run given the results of its conversions.
pub fn run_outcome(rs: &Vec<ConversionResult>, quiet: bool, json: bool) -> (r: Result<
    (),
    ConversionError,
>)
    ensures
        match run_outcome_of(rs@, quiet, json) {
            Ok(_) => r is Ok,
            Err(m) => r matches Err(ConversionError::Generic(g)) && g@ == m,
        },
{
    let errors = count_with_status(rs, "error");
    let successes = count_with_status(rs, "success");
    proof {
        reveal_strlit("error");
        reveal_strlit("success");
    }
    if !json && errors > 0 && (quiet || successes == 0) {
        let n = decimal(errors as u64);
        Err(ConversionError::Generic(concat(n.as_str(), " file(s) failed to convert")))
    } else {
        Ok(())
    }
}

/// The lines of the summary of successful conversions: a heading, then one line per file
/// written, in the order of the results.
pub open spec fn success_report_of(rs: Seq<ConversionResult>) -> Seq<Seq<char>>
    decreases rs.len(),
{
    if rs.len() == 0 {
        Seq::empty()
    } else {
        success_report_of(rs.drop_last()) + if rs.last().status@ == "success"@ {
            views(rs.last().output@).map_values(|p: Seq<char>| "  -> "@ + p)
        } else {
            Seq::empty()
        }
    }
}

/// The lines of the summary of failed conversions, one per failed input.
pub open spec fn failure_report_of(rs: Seq<ConversionResult>) -> Seq<Seq<char>>
    decreases rs.len(),
{
    if rs.len() == 0 {
        Seq::empty()
    } else {
        failure_report_of(rs.drop_last()) + if rs.last().status@ == "error"@ {
            seq![
                "  X  "@ + rs.last().input@ + ": "@ + match rs.last().error {
                    Some(e) => e@,
                    None => "Unknown error"@,
                },
            ]
        } else {
            Seq::empty()
        }
    }
}

fn push_outputs(lines: &mut Vec<String>, outputs: &Vec<String>)
    ensures
        views(final(lines)@) == views(old(lines)@) + views(outputs@).map_values(
            |p: Seq<char>| "  -> "@ + p,
        ),
{
    let ghost start = views(lines@);
    let mut i: usize = 0;
    while i < outputs.len()
        invariant
            i <= outputs@.len(),
            views(lines@) == start + views(outputs@).take(i as int).map_values(
                |p: Seq<char>| "  -> "@ + p,
            ),
        decreases outputs.len() - i,
    {
        let ghost before = views(lines@);
        lines.push(concat("  -> ", outputs[i].as_str()));
        assert(views(lines@) =~= before.push("  -> "@ + outputs@[i as int]@));
        assert(views(outputs@).take(i + 1) =~= views(outputs@).take(i as int).push(
            outputs@[i as int]@,
        ));
        assert(views(lines@) =~= start + views(outputs@).take(i + 1).map_values(
            |p: Seq<char>| "  -> "@ + p,
        ));
        i = i + 1;
    }
    assert(views(outputs@).take(outputs@.len() as int) =~= views(outputs@));
}

/// The lines listing the files written by successful conversions, after the heading
/// `Converted N file(s):`.
pub fn success_report(rs: &Vec<ConversionResult>) -> (r: (String, Vec<String>))
    ensures
        r.0@ == "\nConverted "@ + decimal_text(count_status(rs@, "success"@) as u64) + " file(s):"@,
        views(r.1@) == success_report_of(rs@),
{
    proof {
        reveal_strlit("success");
    }
    let n = count_with_status(rs, "success");
    let heading = concat3("\nConverted ", decimal(n as u64).as_str(), " file(s):");
    let mut lines: Vec<String> = Vec::new();
    let mut i: usize = 0;
    while i < rs.len()
        invariant
            i <= rs@.len(),
            views(lines@) == success_report_of(rs@.take(i as int)),
        decreases rs.len() - i,
    {
        assert(rs@.take(i + 1).drop_last() =~= rs@.take(i as int));
        if str_eq(rs[i].status.as_str(), "success") {
            push_outputs(&mut lines, &rs[i].output);
        } else {
            assert(views(lines@) =~= success_report_of(rs@.take(i + 1)));
        }
        i = i + 1;
    }
    assert(rs@.take(rs@.len() as int) =~= rs@);
    (heading, lines)
}

/// The lines listing the failed conversions and their errors, after the heading
/// `Failed N file(s):`.
pub fn failure_report(rs: &Vec<ConversionResult>) -> (r: (String, Vec<String>))
    ensures
        r.0@ == "\nFailed "@ + decimal_text(count_status(rs@, "error"@) as u64) + " file(s):"@,
        views(r.1@) == failure_report_of(rs@),
{
    proof {
        reveal_strlit("error");
        reveal_strlit("Unknown error");
    }
    let n = count_with_status(rs, "error");
    let heading = concat3("\nFailed ", decimal(n as u64).as_str(), " file(s):");
    let mut lines: Vec<String> = Vec::new();
    let mut i: usize = 0;
    while i < rs.len()
        invariant
            i <= rs@.len(),
            views(lines@) == failure_report_of(rs@.take(i as int)),
        decreases rs.len() - i,
    {
        assert(rs@.take(i + 1).drop_last() =~= rs@.take(i as int));
        if str_eq(rs[i].status.as_str(), "error") {
            let msg = match &rs[i].error {
                Some(e) => e.clone(),
                None => owned("Unknown error"),
            };
            let head = concat3("  X  ", rs[i].input.as_str(), ": ");
            let ghost before = views(lines@);
            lines.push(concat(head.as_str(), msg.as_str()));
            assert(views(lines@) =~= before.push(
                "  X  "@ + rs@[i as int].input@ + ": "@ + match rs@[i as int].error {
                    Some(e) => e@,
                    None => "Unknown error"@,
                },
            ));
        }
        assert(views(lines@) =~= failure_report_of(rs@.take(i + 1)));
        i = i + 1;
    }
    assert(rs@.take(rs@.len() as int) =~= rs@);
    (heading, lines)
}

/// A run fails only when some conversion failed, and, outside JSON and quiet mode, only when
/// none succeeded: a run in which every conversion succeeded never fails.
pub proof fn lemma_all_converted_run_succeeds(rs: Seq<ConversionResult>, quiet: bool, json: bool)
    requires
        forall|i: int| 0 <= i < rs.len() ==> (#[trigger] rs[i]).status@ == "success"@,
    ensures
        run_outcome_of(rs, quiet, json) is Ok,
    decreases rs.len(),
{
    if rs.len() > 0 {
        assert forall|i: int| 0 <= i < rs.drop_last().len() implies (
        #[trigger] rs.drop_last()[i]).status@ == "success"@ by {
            assert(rs.drop_last()[i] == rs[i]);
        }
        lemma_all_converted_run_succeeds(rs.drop_last(), quiet, json);
        assert(rs.last().status@ == "success"@);
        reveal_strlit("success");
        reveal_strlit("error");
        assert("success"@ != "error"@) by {
            assert("success"@[0] != "error"@[0]);
        }
    }
}

/// Whether a result has the given status.
pub open spec fn has_status(status: Seq<char>) -> spec_fn(ConversionResult) -> bool {
    |r: ConversionResult| r.status@ == status
}

/// The number of results with a status is the number of results that carry it.
pub proof fn lemma_count_status_counts(rs: Seq<ConversionResult>, status: Seq<char>)
    ensures
        count_status(rs, status) == rs.filter(has_status(status)).len(),
        count_status(rs, status) > 0 <==> exists|i: int|
            0 <= i < rs.len() && (#[trigger] rs[i]).status@ == status,
    decreases rs.len(),
{
    reveal(Seq::filter);
    if rs.len() > 0 {
        lemma_count_status_counts(rs.drop_last(), status);
        if count_status(rs.drop_last(), status) > 0 {
            let i = choose|i: int|
                0 <= i < rs.drop_last().len() && (#[trigger] rs.drop_last()[i]).status@ == status;
            assert(rs[i] == rs.drop_last()[i]);
        }
        if exists|i: int| 0 <= i < rs.len() && (#[trigger] rs[i]).status@ == status {
            let i = choose|i: int| 0 <= i < rs.len() && (#[trigger] rs[i]).status@ == status;
            if i < rs.len() - 1 {
                assert(rs.drop_last()[i] == rs[i]);
            }
        }
    }
}

/// When a run fails: never in JSON mode, and otherwise only when a conversion failed; then in
/// quiet mode always, else only when no conversion succeeded. The message counts the failed
/// conversions.
pub proof fn lemma_run_outcome_rule(rs: Seq<ConversionResult>, quiet: bool, json: bool)
    ensures
        json ==> run_outcome_of(rs, quiet, json) is Ok,
        (forall|i: int| 0 <= i < rs.len() ==> (#[trigger] rs[i]).status@ != "error"@)
            ==> run_outcome_of(rs, quiet, json) is Ok,
        !json && quiet && (exists|i: int| 0 <= i < rs.len() && (#[trigger] rs[i]).status@ == "error"@)
            ==> run_outcome_of(rs, quiet, json) == Err::<(), Seq<char>>(
            decimal_text(rs.filter(has_status("error"@)).len() as u64)
                + " file(s) failed to convert"@,
        ),
        !json && !quiet && (exists|i: int| 0 <= i < rs.len() && (#[trigger] rs[i]).status@ == "success"@)
            ==> run_outcome_of(rs, quiet, json) is Ok,
        !json && (exists|i: int| 0 <= i < rs.len() && (#[trigger] rs[i]).status@ == "error"@)
            && (forall|i: int| 0 <= i < rs.len() ==> (#[trigger] rs[i]).status@ != "success"@)
            ==> run_outcome_of(rs, quiet, json) is Err,
{
    lemma_count_status_counts(rs, "error"@);
    lemma_count_status_counts(rs, "success"@);
}

/// A change to one of the inputs converts that input again; a change to the style sheet that is
/// not an input converts every input again; any other change does nothing.
pub proof fn lemma_watch_action_rule(
    changed: Seq<char>,
    inputs: Seq<Seq<char>>,
    css: Option<Seq<char>>,
    k: int,
)
    ensures
        0 <= k < inputs.len() && same_path(changed, inputs[k]) ==> watch_action_of(
            changed,
            inputs,
            css,
        ) == Some(Some(changed)),
        (forall|i: int| 0 <= i < inputs.len() ==> !same_path(changed, #[trigger] inputs[i]))
            ==> watch_action_of(changed, inputs, css) == (if css matches Some(c) && same_path(
            changed,
            c,
        ) {
            Some(None::<Seq<char>>)
        } else {
            None
        }),
{
}

/// The summary of failures has one line per failed conversion, naming its input and its error
/// (or `Unknown error`); a result that did not fail adds no line.
pub proof fn lemma_failure_report_lines(rs: Seq<ConversionResult>, r: ConversionResult)
    ensures
        failure_report_of(rs).len() == rs.filter(has_status("error"@)).len(),
        r.status@ == "error"@ ==> failure_report_of(rs.push(r)) == failure_report_of(rs).push(
            "  X  "@ + r.input@ + ": "@ + match r.error {
                Some(e) => e@,
                None => "Unknown error"@,
            },
        ),
        r.status@ != "error"@ ==> failure_report_of(rs.push(r)) == failure_report_of(rs),
    decreases rs.len(),
{
    reveal(Seq::filter);
    assert(rs.push(r).drop_last() =~= rs);
    if rs.len() > 0 {
        lemma_failure_report_lines(rs.drop_last(), rs.last());
    }
    assert(failure_report_of(rs).len() == rs.filter(has_status("error"@)).len()) by {
        lemma_failure_count(rs);
    }
}

proof fn lemma_failure_count(rs: Seq<ConversionResult>)
    ensures
        failure_report_of(rs).len() == rs.filter(has_status("error"@)).len(),
    decreases rs.len(),
{
    reveal(Seq::filter);
    if rs.len() > 0 {
        lemma_failure_count(rs.drop_last());
    }
}

/// The summary of successes lists every file written by a successful conversion, in order; a
/// result that did not succeed adds no line.
pub proof fn lemma_success_report_lines(rs: Seq<ConversionResult>, r: ConversionResult)
    ensures
        r.status@ == "success"@ ==> success_report_of(rs.push(r)) == success_report_of(rs)
            + views(r.output@).map_values(|p: Seq<char>| "  -> "@ + p),
        r.status@ != "success"@ ==> success_report_of(rs.push(r)) == success_report_of(rs),
{
    assert(rs.push(r).drop_last() =~= rs);
}

/// What a change seen in watch mode triggers.
pub enum WatchAction {
    /// Convert this input again.
    Reconvert(String),
    /// The style sheet changed: convert every input again.
    ReconvertAll,
    /// The change concerns nothing the run converts.
    Ignore,
}

/// Two paths are equal as `Path`s (component by component).
pub uninterp spec fn same_path(a: Seq<char>, b: Seq<char>) -> bool;

/// Compares two paths with `Path`'s `==`, which compares their components; the result depends
/// on the two texts alone.
#[verifier::external_body]
fn paths_equal(a: &str, b: &str) -> (r: bool)
    ensures
        r == same_path(a@, b@),
{
    std::path::Path::new(a) == std::path::Path::new(b)
}

/// What a change to `changed` triggers: converting it again when it is one of the inputs, else
/// converting every input again when it is the style sheet, else nothing.
pub open spec fn watch_action_of(changed: Seq<char>, inputs: Seq<Seq<char>>, css: Option<Seq<char>>) -> Option<
    Option<Seq<char>>,
> {
    if exists|i: int| 0 <= i < inputs.len() && same_path(changed, #[trigger] inputs[i]) {
        Some(Some(changed))
    } else if css matches Some(c) && same_path(changed, c) {
        Some(None)
    } else {
        None
    }
}

/// The view of a watch action: `Some(Some(path))` to convert one input, `Some(None)` to convert
/// them all, `None` to do nothing.
pub open spec fn action_view(a: WatchAction) -> Option<Option<Seq<char>>> {
    match a {
        WatchAction::Reconvert(p) => Some(Some(p@)),
        WatchAction::ReconvertAll => Some(None),
        WatchAction::Ignore => None,
    }
}

/// Decides what a change to the path `changed`, seen in watch mode, triggers.
pub fn watch_action(changed: &str, inputs: &Vec<String>, css: &Option<String>) -> (r: WatchAction)
    ensures
        action_view(r) == watch_action_of(changed@, views(inputs@), opt_view(*css)),
{
    let mut i: usize = 0;
    while i < inputs.len()
        invariant
            i <= inputs@.len(),
            forall|k: int| 0 <= k < i ==> !same_path(changed@, #[trigger] views(inputs@)[k]),
        decreases inputs.len() - i,
    {
        if paths_equal(changed, inputs[i].as_str()) {
            assert(same_path(changed@, views(inputs@)[i as int]));
            return WatchAction::Reconvert(owned(changed));
        }
        i = i + 1;
    }
    if let Some(c) = css {
        if paths_equal(changed, c.as_str()) {
            return WatchAction::ReconvertAll;
        }
    }
    WatchAction::Ignore
}

/// The paths watched for changes: the inputs that exist, then the style sheet when it exists.
pub open spec fn watched_of(
    inputs: Seq<Seq<char>>,
    input_exists: Seq<bool>,
    css: Option<Seq<char>>,
    css_exists: bool,
) -> Seq<Seq<char>>
    decreases inputs.len(),
{
    if inputs.len() == 0 {
        match css {
            Some(c) => if css_exists {
                seq![c]
            } else {
                Seq::empty()
            },
            None => Seq::empty(),
        }
    } else {
        (if input_exists[0] {
            seq![inputs[0]]
        } else {
            Seq::empty()
        }) + watched_of(inputs.drop_first(), input_exists.drop_first(), css, css_exists)
    }
}

/// Chooses the paths to watch, given whether each input and the style sheet exist.
pub fn watch_targets(
    inputs: &Vec<String>,
    input_exists: &Vec<bool>,
    css: &Option<String>,
    css_exists: bool,
) -> (r: Vec<String>)
    requires
        input_exists@.len() == inputs@.len(),
    ensures
        views(r@) == watched_of(views(inputs@), input_exists@, opt_view(*css), css_exists),
{
    let mut r: Vec<String> = Vec::new();
    let mut i: usize = 0;
    assert(views(inputs@).skip(0) =~= views(inputs@));
    assert(input_exists@.skip(0) =~= input_exists@);
    assert(views(r@) =~= Seq::<Seq<char>>::empty());
    assert(views(r@) + watched_of(views(inputs@), input_exists@, opt_view(*css), css_exists)
        =~= watched_of(views(inputs@), input_exists@, opt_view(*css), css_exists));
    while i < inputs.len()
        invariant
            input_exists@.len() == inputs@.len(),
            i <= inputs@.len(),
            views(r@) + watched_of(
                views(inputs@).skip(i as int),
                input_exists@.skip(i as int),
                opt_view(*css),
                css_exists,
            ) == watched_of(views(inputs@), input_exists@, opt_view(*css), css_exists),
        decreases inputs.len() - i,
    {
        let ghost before = views(r@);
        assert(views(inputs@).skip(i as int).drop_first() =~= views(inputs@).skip(i + 1));
        assert(input_exists@.skip(i as int).drop_first() =~= input_exists@.skip(i + 1));
        if input_exists[i] {
            r.push(inputs[i].clone());
            assert(views(r@) =~= before + seq![views(inputs@)[i as int]]);
        }
        assert(views(r@) + watched_of(
            views(inputs@).skip(i + 1),
            input_exists@.skip(i + 1),
            opt_view(*css),
            css_exists,
        ) =~= watched_of(views(inputs@), input_exists@, opt_view(*css), css_exists));
        i = i + 1;
    }
    let ghost before = views(r@);
    assert(views(inputs@).skip(i as int) =~= Seq::<Seq<char>>::empty());
    if let Some(c) = css {
        if css_exists {
            r.push(c.clone());
            assert(views(r@) =~= before + seq![c@]);
        }
    }
    assert(views(r@) =~= watched_of(views(inputs@), input_exists@, opt_view(*css), css_exists));
    r
}

} // verus!

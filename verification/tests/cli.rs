//! Command-line options: parsing of formats and verbosity, log levels, and the checks made on
//! the options.
use clap::{Arg, ArgAction, Command};
use md_conv::cli::{ArgsError, Args, OutputFormat, PathFacts, PathStatus};

/// Parses a command line the way the `md-conv` program declares its options (the options these
/// tests use).
fn parse_from(argv: &[&str]) -> Args {
    let matches = Command::new("md-conv")
        .arg(Arg::new("input").num_args(0..).required_unless_present("stdin"))
        .arg(Arg::new("stdin").long("stdin").action(ArgAction::SetTrue))
        .arg(
            Arg::new("format")
                .short('f')
                .long("format")
                .value_delimiter(',')
                .action(ArgAction::Append)
                .value_parser(["pdf", "html"]),
        )
        .arg(Arg::new("verbose").short('v').long("verbose").action(ArgAction::Count))
        .get_matches_from(argv.iter().copied());
    let input: Vec<String> = matches
        .get_many::<String>("input")
        .map(|v| v.cloned().collect())
        .unwrap_or_default();
    let format = matches.get_many::<String>("format").map(|v| {
        v.map(|s| OutputFormat::from_name(s).expect("clap only accepts known formats"))
            .collect::<Vec<_>>()
    });
    Args {
        input,
        stdin: matches.get_flag("stdin"),
        format,
        verbose: matches.get_count("verbose"),
        ..Args::default()
    }
}

fn file() -> PathStatus {
    PathStatus { exists: true, is_file: true }
}

fn facts(inputs: Vec<PathStatus>) -> PathFacts {
    PathFacts { inputs, css: None, chrome: None }
}

#[test]
fn test_default_format_is_none() {
    let args = parse_from(&["md-conv", "test.md"]);
    assert!(args.format.is_none());
}

#[test]
fn test_multiple_formats() {
    let args = parse_from(&["md-conv", "test.md", "-f", "pdf", "-f", "html"]);
    assert_eq!(args.format, Some(vec![OutputFormat::Pdf, OutputFormat::Html]));
}

#[test]
fn test_verbosity_levels() {
    let args = parse_from(&["md-conv", "test.md"]);
    assert_eq!(args.log_level(), "warn");

    let args = parse_from(&["md-conv", "test.md", "-v"]);
    assert_eq!(args.log_level(), "info");

    let args = parse_from(&["md-conv", "test.md", "-vvv"]);
    assert_eq!(args.log_level(), "trace");
}

#[test]
fn debug_verbosity_level() {
    let args = Args { verbose: 2, ..Args::default() };
    assert_eq!(args.log_level(), "debug");
}

#[test]
fn comma_separated_formats() {
    let args = parse_from(&["md-conv", "test.md", "-f", "pdf,html"]);
    assert_eq!(args.format, Some(vec![OutputFormat::Pdf, OutputFormat::Html]));
}

#[test]
fn format_names_round_trip() {
    assert_eq!(OutputFormat::Pdf.name(), "pdf");
    assert_eq!(OutputFormat::Html.name(), "html");
    assert_eq!(OutputFormat::from_name("pdf"), Some(OutputFormat::Pdf));
    assert_eq!(OutputFormat::from_name("html"), Some(OutputFormat::Html));
    assert_eq!(OutputFormat::from_name("docx"), None);
}

#[test]
fn default_args_have_documented_limits() {
    let args = Args::default();
    assert!(args.max_file_size.is_none());
    assert!(args.timeout.is_none());
    assert_eq!(args.max_file_size_mb(), 10);
    let given = Args { max_file_size: Some(3), ..Args::default() };
    assert_eq!(given.max_file_size_mb(), 3);
    assert!(args.input.is_empty());
    assert!(args.format.is_none());
}

#[test]
fn valid_arguments_pass() {
    let args = Args { input: vec!["a.md".into()], ..Args::default() };
    assert!(args.validate(&facts(vec![file()])).is_ok());
}

#[test]
fn output_with_several_inputs_is_refused() {
    let args = Args {
        input: vec!["a.md".into(), "b.md".into()],
        output: Some("out.pdf".into()),
        ..Args::default()
    };
    let err = args.validate(&facts(vec![file(), file()])).unwrap_err();
    assert!(matches!(err, ArgsError::OutputWithMultipleInputs));
    assert_eq!(err.message(), "Cannot use --output with multiple input files");
}

#[test]
fn missing_input_is_refused() {
    let args = Args { input: vec!["a.md".into(), "gone.md".into()], ..Args::default() };
    let missing = PathStatus { exists: false, is_file: false };
    let err = args.validate(&facts(vec![file(), missing])).unwrap_err();
    assert_eq!(err.message(), "Input file not found: gone.md");
}

#[test]
fn directory_input_is_refused() {
    let args = Args { input: vec!["docs".into()], ..Args::default() };
    let dir = PathStatus { exists: true, is_file: false };
    let err = args.validate(&facts(vec![dir])).unwrap_err();
    assert_eq!(err.message(), "Input path is not a file: docs");
}

#[test]
fn pdf_to_stdout_is_refused() {
    let args = Args {
        input: vec!["a.md".into()],
        stdout: true,
        format: Some(vec![OutputFormat::Html, OutputFormat::Pdf]),
        ..Args::default()
    };
    let err = args.validate(&facts(vec![file()])).unwrap_err();
    assert_eq!(
        err.message(),
        "PDF output to stdout is currently not supported. Please use -f html."
    );
}

#[test]
fn stdout_with_several_inputs_is_refused() {
    let args = Args {
        input: vec!["a.md".into(), "b.md".into()],
        stdout: true,
        format: Some(vec![OutputFormat::Html]),
        ..Args::default()
    };
    let err = args.validate(&facts(vec![file(), file()])).unwrap_err();
    assert_eq!(err.message(), "Cannot write to stdout with multiple input files.");
}

#[test]
fn watch_with_stdin_is_refused() {
    let args = Args { stdin: true, watch: true, ..Args::default() };
    let err = args.validate(&facts(vec![])).unwrap_err();
    assert_eq!(err.message(), "Cannot use --watch with --stdin.");
}

#[test]
fn css_and_chrome_paths_are_checked() {
    let args = Args {
        input: vec!["a.md".into()],
        css: Some("style.css".into()),
        ..Args::default()
    };
    let missing = PathStatus { exists: false, is_file: false };
    let err = args
        .validate(&PathFacts { inputs: vec![file()], css: Some(missing), chrome: None })
        .unwrap_err();
    assert_eq!(err.message(), "CSS file not found: style.css");
    let dir = PathStatus { exists: true, is_file: false };
    let err = args
        .validate(&PathFacts { inputs: vec![file()], css: Some(dir), chrome: None })
        .unwrap_err();
    assert_eq!(err.message(), "CSS path is not a file: style.css");

    let args = Args {
        input: vec!["a.md".into()],
        chrome_path: Some("/opt/chrome".into()),
        ..Args::default()
    };
    let err = args
        .validate(&PathFacts { inputs: vec![file()], css: None, chrome: Some(missing) })
        .unwrap_err();
    assert_eq!(err.message(), "Chrome executable not found: /opt/chrome");
}

#[test]
fn zero_timeout_and_size_are_refused() {
    let args = Args { input: vec!["a.md".into()], timeout: Some(0), ..Args::default() };
    let err = args.validate(&facts(vec![file()])).unwrap_err();
    assert!(matches!(err, ArgsError::ZeroTimeout));
    assert_eq!(err.message(), "Timeout must be greater than 0 seconds.");

    let args = Args { input: vec!["a.md".into()], max_file_size: Some(0), ..Args::default() };
    let err = args.validate(&facts(vec![file()])).unwrap_err();
    assert!(matches!(err, ArgsError::ZeroMaxFileSize));
    assert_eq!(err.message(), "Maximum file size must be greater than 0 MB.");
}

#[test]
fn checks_come_in_order() {
    // Both the output check and the missing input apply: the output check comes first.
    let args = Args {
        input: vec!["a.md".into(), "b.md".into()],
        output: Some("o.pdf".into()),
        ..Args::default()
    };
    let missing = PathStatus { exists: false, is_file: false };
    let err = args.validate(&facts(vec![missing, missing])).unwrap_err();
    assert!(matches!(err, ArgsError::OutputWithMultipleInputs));
}

#[test]
fn nonexistent_inputs_are_named_in_the_error() {
    let args = Args { input: vec!["nonexistent.md".into()], ..Args::default() };
    let missing = PathStatus { exists: false, is_file: false };
    let err = args.validate(&facts(vec![missing])).unwrap_err();
    assert!(matches!(err, ArgsError::InputNotFound(ref p) if p == "nonexistent.md"));
    assert!(err.message().contains("not found"));
}

#[test]
fn mixed_valid_and_missing_inputs_fail_on_the_missing_one() {
    let args = Args { input: vec!["ok.md".into(), "missing.md".into()], ..Args::default() };
    let missing = PathStatus { exists: false, is_file: false };
    let err = args.validate(&facts(vec![file(), missing])).unwrap_err();
    assert_eq!(err.message(), "Input file not found: missing.md");
}

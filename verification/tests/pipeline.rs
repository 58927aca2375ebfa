//! A conversion run: its inputs, output paths, summary and watch-mode decisions.
use md_conv::cli::Args;
use md_conv::pipeline::{
    failure_report, is_notebook, is_notebook_extension, output_target, plan_inputs, run_outcome, shows_progress,
    success_report, watch_action, watch_targets, ConversionResult, InputSource, OutputTarget,
    WatchAction,
};

fn ok(input: &str, outputs: &[&str]) -> ConversionResult {
    ConversionResult::success(input.into(), outputs.iter().map(|s| s.to_string()).collect())
}

fn failed(input: &str, msg: &str) -> ConversionResult {
    ConversionResult::failure(input.into(), msg.into())
}

#[test]
fn inputs_of_a_run() {
    let args = Args { input: vec!["a.md".into(), "b.ipynb".into()], ..Args::default() };
    let plan = plan_inputs(&args);
    assert_eq!(plan.len(), 2);
    assert!(matches!(&plan[1], InputSource::File(p) if p == "b.ipynb"));
    let stdin = plan_inputs(&Args { stdin: true, ..Args::default() });
    assert!(matches!(stdin.as_slice(), [InputSource::Stdin]));
    assert_eq!(InputSource::Stdin.display_name(), "<stdin>");
    assert_eq!(InputSource::Stdin.input_path(), "stdin.md");
    assert_eq!(InputSource::File("x.md".into()).display_name(), "x.md");
}

#[test]
fn progress_bar_rule() {
    let args = Args::default();
    assert!(shows_progress(&args, 2));
    assert!(!shows_progress(&args, 0));
    assert!(!shows_progress(&Args { quiet: true, ..Args::default() }, 2));
    assert!(!shows_progress(&Args { json: true, ..Args::default() }, 2));
}

#[test]
fn notebook_extension_ignores_case() {
    assert!(is_notebook("analysis.ipynb"));
    assert!(is_notebook("dir/Analysis.IPYNB"));
    assert!(!is_notebook("notes.md"));
    assert!(!is_notebook("ipynb"));
}

#[test]
fn output_paths() {
    let none = None;
    assert!(matches!(output_target(true, "html", &none, &none, "a.md", false), OutputTarget::Stdout));
    assert!(matches!(output_target(false, "pdf", &none, &none, "docs/a.md", false), OutputTarget::File(p) if p == "docs/a.pdf"));
    assert!(matches!(output_target(false, "html", &Some("r.html".into()), &None, "a.md", false), OutputTarget::File(p) if p == "r.html"));
    assert!(matches!(output_target(false, "pdf", &None, &Some("out".into()), "docs/a.md", false), OutputTarget::File(p) if p == "out/a.pdf"));
    assert!(matches!(output_target(false, "html", &None, &None, "stdin.md", true), OutputTarget::File(p) if p == "output.html"));
    // With --stdout, PDF output still goes to a file.
    assert!(matches!(output_target(true, "pdf", &None, &None, "a.md", false), OutputTarget::File(p) if p == "a.pdf"));
}

#[test]
fn run_outcomes() {
    let all_ok = vec![ok("a.md", &["a.pdf"])];
    assert!(run_outcome(&all_ok, false, false).is_ok());
    let mixed = vec![ok("a.md", &["a.pdf"]), failed("b.md", "boom")];
    assert!(run_outcome(&mixed, false, false).is_ok());
    assert_eq!(run_outcome(&mixed, true, false).unwrap_err().message(), "1 file(s) failed to convert");
    assert!(run_outcome(&mixed, true, true).is_ok());
    let all_failed = vec![failed("a.md", "x"), failed("b.md", "y")];
    let err = run_outcome(&all_failed, false, false).unwrap_err();
    assert_eq!(err.message(), "2 file(s) failed to convert");
    assert_eq!(err.exit_code(), 1);
}

#[test]
fn reports() {
    let rs = vec![
        ok("a.md", &["a.pdf", "a.html"]),
        failed("b.md", "Input broken"),
        ConversionResult { error: None, ..failed("c.md", "") },
    ];
    let (head, lines) = success_report(&rs);
    assert_eq!(head, "\nConverted 1 file(s):");
    assert_eq!(lines, vec!["  -> a.pdf".to_string(), "  -> a.html".to_string()]);
    let (head, lines) = failure_report(&rs);
    assert_eq!(head, "\nFailed 2 file(s):");
    assert_eq!(lines, vec!["  X  b.md: Input broken".to_string(), "  X  c.md: Unknown error".to_string()]);
}

#[test]
fn watch_decisions() {
    let inputs = vec!["docs/a.md".to_string(), "b.md".to_string()];
    let css = Some("style.css".to_string());
    assert!(matches!(watch_action("docs//a.md", &inputs, &css), WatchAction::Reconvert(_)));
    assert!(matches!(watch_action("style.css", &inputs, &css), WatchAction::ReconvertAll));
    assert!(matches!(watch_action("other.md", &inputs, &css), WatchAction::Ignore));
    let watched = watch_targets(&inputs, &vec![true, false], &css, true);
    assert_eq!(watched, vec!["docs/a.md".to_string(), "style.css".to_string()]);
}

#[test]
fn notebook_extension_on_lowercase_text() {
    assert!(is_notebook_extension("ipynb"));
    assert!(!is_notebook_extension("IPYNB"));
    assert!(!is_notebook_extension("md"));
}

#[test]
fn output_extension_is_replaced_not_added() {
    let none = None;
    assert!(matches!(output_target(false, "html", &none, &none, "notes.v2.md", false), OutputTarget::File(p) if p == "notes.v2.html"));
}

#[test]
fn empty_input_list_plans_nothing() {
    let args = Args::default();
    assert!(plan_inputs(&args).is_empty());
    assert!(!shows_progress(&args, 0));
    assert!(run_outcome(&Vec::new(), false, false).is_ok());
}

//! Merging the command line, the configuration file and the front matter.
use md_conv::cli::{Args, OutputFormat};
use md_conv::config::{
    css_source, default_true, input_dir_of, ConfigFile, ConversionConfig, CssSource, FrontMatter,
};

fn args_for(input: &str) -> Args {
    Args { input: vec![input.to_string()], ..Args::default() }
}

#[test]
fn test_config_merge_basic() {
    let args = args_for("test.md");
    let fm = FrontMatter::default();
    let config =
        ConversionConfig::assemble(&args, ConfigFile::default(), fm, "test.md", None).unwrap();
    assert_eq!(config.output_formats, vec![OutputFormat::Pdf]);
    assert_eq!(config.timeout_secs, 30);
}

#[test]
fn test_config_merge_css_precedence() {
    let args = Args { css: Some("style.css".into()), ..args_for("test.md") };
    let fm = FrontMatter { css: Some("body { color: red; }".into()), ..FrontMatter::default() };
    let source = css_source(&args, &ConfigFile::default(), &fm, false);
    assert!(matches!(source, CssSource::CliFile(ref p) if p == "style.css"));
    // The file named by --css holds this text.
    let config = ConversionConfig::assemble(
        &args,
        ConfigFile::default(),
        fm,
        "test.md",
        Some("body { color: blue; }".to_string()),
    )
    .unwrap();
    // lightningcss minifies CSS, so we check for the minified version
    assert_eq!(config.css_content, Some("body{color:#00f}".into()));
}

#[test]
fn defaults_of_a_merge() {
    let config = ConversionConfig::assemble(
        &args_for("docs/guide.md"),
        ConfigFile::default(),
        FrontMatter::default(),
        "docs/guide.md",
        None,
    )
    .unwrap();
    assert_eq!(config.highlight_theme, "base16-ocean.dark");
    assert_eq!(config.max_file_size_bytes, 10 * 1024 * 1024);
    assert_eq!(config.input_dir, "docs");
    assert!(config.css_content.is_none());
    assert!(config.chrome_path.is_none());
    assert!(!config.no_sandbox);
}

#[test]
fn config_file_and_front_matter_precedence() {
    let args = Args { format: Some(vec![OutputFormat::Html]), ..args_for("a.md") };
    let file = ConfigFile {
        highlight_theme: Some("InspiredGitHub".into()),
        format: Some(vec![OutputFormat::Pdf]),
        timeout: Some(90),
        max_file_size: Some(2),
        no_sandbox: Some(true),
        output_dir: Some("out".into()),
        ..ConfigFile::default()
    };
    let fm = FrontMatter { highlight_theme: Some("Solarized (dark)".into()), ..FrontMatter::default() };
    let config = ConversionConfig::assemble(&args, file, fm, "a.md", None).unwrap();
    // The document's theme wins over the file's; the command line's formats over the file's.
    assert_eq!(config.highlight_theme, "Solarized (dark)");
    assert_eq!(config.output_formats, vec![OutputFormat::Html]);
    // Without a command-line value, the file's timeout and size limit apply.
    assert_eq!(config.timeout_secs, 90);
    assert_eq!(config.max_file_size_bytes, 2 * 1024 * 1024);
    assert!(config.no_sandbox);
    assert_eq!(config.output_dir, Some("out".to_string()));
    assert_eq!(config.input_dir, "");
}

#[test]
fn dangerous_css_fails_the_merge() {
    let err = ConversionConfig::assemble(
        &args_for("a.md"),
        ConfigFile::default(),
        FrontMatter::default(),
        "a.md",
        Some("a { background: url('javascript:alert(1)') }".into()),
    )
    .err()
    .unwrap();
    assert_eq!(err.exit_code(), 5);
}

#[test]
fn css_source_order() {
    let fm = FrontMatter { css: Some("theme.css".into()), ..FrontMatter::default() };
    let file = ConfigFile { css: Some("shared.css".into()), ..ConfigFile::default() };
    let args = args_for("a.md");
    assert!(matches!(css_source(&args, &file, &fm, true), CssSource::ConfigFile(ref p) if p == "shared.css"));
    let none = ConfigFile::default();
    assert!(matches!(
        css_source(&args, &none, &fm, true),
        CssSource::DocumentFile { ref path, external_allowed: false } if path == "theme.css"
    ));
    assert!(matches!(css_source(&args, &none, &fm, false), CssSource::Inline(ref c) if c == "theme.css"));
    let open = Args { allow_external_css: true, ..args_for("a.md") };
    assert!(matches!(
        css_source(&open, &none, &fm, true),
        CssSource::DocumentFile { external_allowed: true, .. }
    ));
    assert!(matches!(css_source(&args, &none, &FrontMatter::default(), false), CssSource::NoCss));
}

#[test]
fn print_background_defaults() {
    assert!(default_true());
}

#[test]
fn input_directory() {
    assert_eq!(input_dir_of("docs/a.md"), "docs");
    assert_eq!(input_dir_of("a.md"), "");
    assert_eq!(input_dir_of("/"), ".");
}

#[test]
fn command_line_timeout_and_size_win() {
    let args = Args { timeout: Some(5), max_file_size: Some(1), ..args_for("a.md") };
    let file = ConfigFile { timeout: Some(90), max_file_size: Some(2), ..ConfigFile::default() };
    let config =
        ConversionConfig::assemble(&args, file, FrontMatter::default(), "a.md", None).unwrap();
    assert_eq!(config.timeout_secs, 5);
    assert_eq!(config.max_file_size_bytes, 1024 * 1024);
}

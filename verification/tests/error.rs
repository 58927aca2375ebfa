//! Error messages and the exit codes of the command-line program.
use md_conv::error::ConversionError;

#[test]
fn test_error_display() {
    let err = ConversionError::Generic("test".into());
    assert_eq!(err.message(), "test");
}

#[test]
fn test_exit_codes() {
    assert_eq!(ConversionError::Generic("test".into()).exit_code(), 1);
    assert_eq!(
        ConversionError::Io(std::io::Error::new(std::io::ErrorKind::NotFound, "file")).exit_code(),
        2
    );
    assert_eq!(ConversionError::Parse("bad markdown".into()).exit_code(), 3);
    assert_eq!(ConversionError::Config("invalid config".into()).exit_code(), 4);
    assert_eq!(ConversionError::Security("XSS attempt".into()).exit_code(), 5);
    assert_eq!(ConversionError::Browser("Chrome crashed".into()).exit_code(), 7);
    assert_eq!(ConversionError::Notebook("invalid ipynb".into()).exit_code(), 8);
}

#[test]
fn test_from_io_error() {
    let io_err = std::io::Error::new(std::io::ErrorKind::PermissionDenied, "access denied");
    let conv_err: ConversionError = io_err.into();
    assert!(matches!(conv_err, ConversionError::Io(_)));
    assert_eq!(conv_err.exit_code(), 2);
}

#[test]
fn messages_name_the_kind_of_error() {
    assert_eq!(ConversionError::Parse("x".into()).message(), "Markdown parse error: x");
    assert_eq!(ConversionError::Browser("x".into()).message(), "Browser error: x");
    assert_eq!(ConversionError::Security("x".into()).message(), "Security violation: x");
    assert_eq!(ConversionError::Config("x".into()).message(), "Configuration error: x");
    assert_eq!(ConversionError::Notebook("x".into()).message(), "Notebook parse error: x");
    let io = ConversionError::Io(std::io::Error::new(std::io::ErrorKind::NotFound, "gone"));
    assert_eq!(io.message(), "I/O error: gone");
}

#[test]
fn template_errors_have_their_own_exit_code() {
    let err = handlebars::Handlebars::new()
        .render_template("{{#if}}", &())
        .unwrap_err();
    let conv: ConversionError = err.into();
    assert_eq!(conv.exit_code(), 6);
    assert!(conv.message().starts_with("Template rendering failed: "));
}

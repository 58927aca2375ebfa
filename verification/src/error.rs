//! Library-level errors with structured variants and the exit codes of the CLI.
use vstd::prelude::*;
use crate::text::{concat, owned};

verus! {

#[verifier::external_type_specification]
#[verifier::external_body]
pub struct ExRenderError(handlebars::RenderError);

#[verifier::external_type_specification]
#[verifier::external_body]
pub struct ExIoError(std::io::Error);

/// Library-level errors.
#[derive(Debug)]
pub enum ConversionError {
    /// Template rendering failed.
    Template(handlebars::RenderError),
    /// Markdown parse error.
    Parse(String),
    /// Browser error.
    Browser(String),
    /// Security violation.
    Security(String),
    /// I/O error.
    Io(std::io::Error),
    /// Configuration error.
    Config(String),
    /// Notebook parse error.
    Notebook(String),
    /// Any other error, carrying its message.
    Generic(String),
}

/// The exit code of the CLI for each kind of error.
pub open spec fn exit_code_of(e: ConversionError) -> i32 {
    match e {
        ConversionError::Io(_) => 2,
        ConversionError::Parse(_) => 3,
        ConversionError::Config(_) => 4,
        ConversionError::Security(_) => 5,
        ConversionError::Template(_) => 6,
        ConversionError::Browser(_) => 7,
        ConversionError::Notebook(_) => 8,
        ConversionError::Generic(_) => 1,
    }
}

/// The text of a `handlebars::RenderError`, as its `Display` implementation writes it.
/// Nothing is stated of the text.
#[verifier::external_body]
fn render_error_text(e: &handlebars::RenderError) -> String {
    e.to_string()
}

/// The text of a `std::io::Error`, as its `Display` implementation writes it.
/// Nothing is stated of the text (it may come from the operating system).
#[verifier::external_body]
fn io_error_text(e: &std::io::Error) -> String {
    e.to_string()
}

impl ConversionError {
    /// Get exit code for CLI.
    pub fn exit_code(&self) -> (r: i32)
        ensures
            r == exit_code_of(*self),
            1 <= r <= 8,
    {
        match self {
            ConversionError::Io(_) => 2,
            ConversionError::Parse(_) => 3,
            ConversionError::Config(_) => 4,
            ConversionError::Security(_) => 5,
            ConversionError::Template(_) => 6,
            ConversionError::Browser(_) => 7,
            ConversionError::Notebook(_) => 8,
            ConversionError::Generic(_) => 1,
        }
    }

    /// The human-readable message of the error (what `Display` prints for it).
    pub fn message(&self) -> (r: String)
        ensures
            match self {
                ConversionError::Parse(s) => r@ == "Markdown parse error: "@ + s@,
                ConversionError::Browser(s) => r@ == "Browser error: "@ + s@,
                ConversionError::Security(s) => r@ == "Security violation: "@ + s@,
                ConversionError::Config(s) => r@ == "Configuration error: "@ + s@,
                ConversionError::Notebook(s) => r@ == "Notebook parse error: "@ + s@,
                ConversionError::Generic(s) => r@ == s@,
                ConversionError::Template(_) => exists|t: Seq<char>|
                    r@ == "Template rendering failed: "@ + t,
                ConversionError::Io(_) => exists|t: Seq<char>| r@ == "I/O error: "@ + t,
            },
    {
        match self {
            ConversionError::Template(e) => {
                let t = render_error_text(e);
                concat("Template rendering failed: ", t.as_str())
            },
            ConversionError::Parse(s) => concat("Markdown parse error: ", s.as_str()),
            ConversionError::Browser(s) => concat("Browser error: ", s.as_str()),
            ConversionError::Security(s) => concat("Security violation: ", s.as_str()),
            ConversionError::Io(e) => {
                let t = io_error_text(e);
                concat("I/O error: ", t.as_str())
            },
            ConversionError::Config(s) => concat("Configuration error: ", s.as_str()),
            ConversionError::Notebook(s) => concat("Notebook parse error: ", s.as_str()),
            ConversionError::Generic(s) => owned(s.as_str()),
        }
    }
}

impl From<std::io::Error> for ConversionError {
    fn from(e: std::io::Error) -> (r: Self) {
        ConversionError::Io(e)
    }
}

impl vstd::std_specs::convert::FromSpecImpl<std::io::Error> for ConversionError {
    open spec fn obeys_from_spec() -> bool {
        true
    }

    open spec fn from_spec(e: std::io::Error) -> Self {
        ConversionError::Io(e)
    }
}

impl From<handlebars::RenderError> for ConversionError {
    fn from(e: handlebars::RenderError) -> (r: Self) {
        ConversionError::Template(e)
    }
}

impl vstd::std_specs::convert::FromSpecImpl<handlebars::RenderError> for ConversionError {
    open spec fn obeys_from_spec() -> bool {
        true
    }

    open spec fn from_spec(e: handlebars::RenderError) -> Self {
        ConversionError::Template(e)
    }
}

/// Each kind of error has its own exit code, and no error exits with 0: the code tells the kind
/// of error back.
pub proof fn lemma_exit_code_identifies_kind(e: ConversionError)
    ensures
        1 <= exit_code_of(e) <= 8,
        exit_code_of(e) == 1 <==> e is Generic,
        exit_code_of(e) == 2 <==> e is Io,
        exit_code_of(e) == 3 <==> e is Parse,
        exit_code_of(e) == 4 <==> e is Config,
        exit_code_of(e) == 5 <==> e is Security,
        exit_code_of(e) == 6 <==> e is Template,
        exit_code_of(e) == 7 <==> e is Browser,
        exit_code_of(e) == 8 <==> e is Notebook,
{
}

} // verus!

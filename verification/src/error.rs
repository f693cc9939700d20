//! The library's error type.

use vstd::prelude::*;
use vstd::string::StringExecFns;

verus! {

/// A failure, by the part of the system that it comes from, with its text.
#[derive(Debug)]
pub enum AppError {
    /// A file-system failure.
    Io(String),
    /// A subprocess that could not be started or that ended with a failure status.
    Process(String),
    /// Persisted state that could not be parsed or written as JSON.
    Json(String),
    /// A PDF document that could not be parsed or saved.
    Pdf(String),
    /// A request that names no work to do.
    InvalidInput(String),
    /// A folder or file that does not exist.
    NotFound(String),
}

impl AppError {
    /// The text that the error carries.
    pub open spec fn detail(&self) -> Seq<char> {
        match self {
            AppError::Io(m) => m@,
            AppError::Process(m) => m@,
            AppError::Json(m) => m@,
            AppError::Pdf(m) => m@,
            AppError::InvalidInput(m) => m@,
            AppError::NotFound(m) => m@,
        }
    }

    /// The words that introduce an error of this kind.
    pub open spec fn label(&self) -> Seq<char> {
        match self {
            AppError::Io(_) => "IO error: "@,
            AppError::Process(_) => "Process error: "@,
            AppError::Json(_) => "JSON error: "@,
            AppError::Pdf(_) => "PDF error: "@,
            AppError::InvalidInput(_) => "Invalid input: "@,
            AppError::NotFound(_) => "Not found: "@,
        }
    }

    /// The error as one line of text: its kind, then what it carries.
    pub fn message(&self) -> (r: String)
        ensures
            r@ == self.label() + self.detail(),
    {
        let (label, detail) = match self {
            AppError::Io(m) => ("IO error: ", m),
            AppError::Process(m) => ("Process error: ", m),
            AppError::Json(m) => ("JSON error: ", m),
            AppError::Pdf(m) => ("PDF error: ", m),
            AppError::InvalidInput(m) => ("Invalid input: ", m),
            AppError::NotFound(m) => ("Not found: ", m),
        };
        let mut out = String::from_str(label);
        out.append(detail.as_str());
        out
    }
}

impl From<String> for AppError {
    fn from(err: String) -> (r: Self) {
        AppError::Process(err)
    }
}

impl vstd::std_specs::convert::FromSpecImpl<String> for AppError {
    open spec fn obeys_from_spec() -> bool {
        true
    }

    open spec fn from_spec(err: String) -> Self {
        AppError::Process(err)
    }
}


#[verifier::external_type_specification]
#[verifier::external_body]
pub struct ExIoError(std::io::Error);

/// The text of a `std::io::Error`, as its `Display` gives it; the platform words it.
#[verifier::external_body]
fn io_error_text(e: &std::io::Error) -> (r: String) {
    e.to_string()
}

/// The error for a file-system failure: an IO error with the failure's own text.
pub fn from_io(err: std::io::Error) -> (r: AppError)
    ensures
        r is Io,
{
    io_failure(io_error_text(&err))
}

/// The IO error that carries the given text.
pub fn io_failure(detail: String) -> (r: AppError)
    ensures
        r == AppError::Io(detail),
{
    AppError::Io(detail)
}

} // verus!

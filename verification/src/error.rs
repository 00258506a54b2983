//! What can go wrong in a conversion.

use vstd::prelude::*;
use vstd::string::StringExecFns;

verus! {

/// The error of an input or output operation, as the standard library
/// reports it. Nothing is known here of what it holds.
#[verifier::external_type_specification]
#[verifier::external_body]
pub struct ExIoError(std::io::Error);

/// Why a conversion failed.
#[derive(Debug)]
pub enum ConverterError {
    /// The input file could not be read.
    InputFileError(std::io::Error),
    /// The Markdown could not be parsed.
    ParsingError(String),
    /// The output file could not be written.
    OutputFileError(String),
    /// The style sheet could not be used.
    CssError(String),
    /// The code could not be highlighted.
    SyntaxHighlightError(String),
}

/// What an error of the standard library says of itself, through its
/// `Display`. The words are the operating system's.
#[verifier::external_body]
fn io_error_text(e: &std::io::Error) -> (r: String) {
    format!("{}", e)
}

impl ConverterError {
    /// What precedes the detail in the message of the error.
    pub open spec fn prefix(&self) -> Seq<char> {
        match self {
            ConverterError::InputFileError(_) => "Failed to read input file: "@,
            ConverterError::ParsingError(_) => "Failed to parse markdown: "@,
            ConverterError::OutputFileError(_) => "Failed to write output file: "@,
            ConverterError::CssError(_) => "Invalid CSS file: "@,
            ConverterError::SyntaxHighlightError(_) => "Syntax highlighting error: "@,
        }
    }

    /// The message of the error: what failed, then the detail that the
    /// error carries. For an error of the standard library the detail is
    /// its own text.
    pub fn message(&self) -> (r: String)
        ensures
            self.prefix().is_prefix_of(r@),
            match self {
                ConverterError::InputFileError(_) => true,
                ConverterError::ParsingError(detail)
                | ConverterError::OutputFileError(detail)
                | ConverterError::CssError(detail)
                | ConverterError::SyntaxHighlightError(detail) => r@ == self.prefix() + detail@,
            },
    {
        match self {
            ConverterError::InputFileError(e) => {
                let detail = io_error_text(e);
                String::from_str("Failed to read input file: ").concat(detail.as_str())
            },
            ConverterError::ParsingError(detail) => String::from_str(
                "Failed to parse markdown: ",
            ).concat(detail.as_str()),
            ConverterError::OutputFileError(detail) => String::from_str(
                "Failed to write output file: ",
            ).concat(detail.as_str()),
            ConverterError::CssError(detail) => String::from_str("Invalid CSS file: ").concat(
                detail.as_str(),
            ),
            ConverterError::SyntaxHighlightError(detail) => String::from_str(
                "Syntax highlighting error: ",
            ).concat(detail.as_str()),
        }
    }
}

} // verus!

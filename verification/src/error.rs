//! The errors that an analysis can end in.

use crate::text::{concat, from_chars, to_chars};
use vstd::prelude::*;

verus! {

/// Why an analysis failed.
#[derive(Debug, Clone)]
pub enum AnalysisError {
    /// A Python source is no valid module: the parser's message, the line, the column.
    ParseFileError(String, String, String),
    /// A project-metadata document is no valid structured data, or its
    /// dependency tables have an unexpected shape.
    PyProjectTomlError(String),
    /// A dependency file of a kind that is not read yet.
    UnsupportedDependencyFile(String),
    /// A manifest of a kind that is not read yet.
    UnsupportedProjectFormat(String),
    /// A file could not be read: its path and the cause.
    FileReadError(String, String),
    /// A requirement is neither a requirement string, a URL nor a path, or a
    /// requirements file is included twice.
    DependencyParseError(String),
    /// No manifest of a known kind lies in the directory.
    NoProjectOrRequirementsFile(String),
}

/// An `AnalysisError` with its texts as character sequences.
pub ghost enum AnalysisErrorView {
    ParseFileError(Seq<char>, Seq<char>, Seq<char>),
    PyProjectTomlError(Seq<char>),
    UnsupportedDependencyFile(Seq<char>),
    UnsupportedProjectFormat(Seq<char>),
    FileReadError(Seq<char>, Seq<char>),
    DependencyParseError(Seq<char>),
    NoProjectOrRequirementsFile(Seq<char>),
}

impl View for AnalysisError {
    type V = AnalysisErrorView;

    open spec fn view(&self) -> AnalysisErrorView {
        match *self {
            AnalysisError::ParseFileError(a, b, c) => AnalysisErrorView::ParseFileError(a@, b@, c@),
            AnalysisError::PyProjectTomlError(a) => AnalysisErrorView::PyProjectTomlError(a@),
            AnalysisError::UnsupportedDependencyFile(a) => AnalysisErrorView::UnsupportedDependencyFile(a@),
            AnalysisError::UnsupportedProjectFormat(a) => AnalysisErrorView::UnsupportedProjectFormat(a@),
            AnalysisError::FileReadError(a, b) => AnalysisErrorView::FileReadError(a@, b@),
            AnalysisError::DependencyParseError(a) => AnalysisErrorView::DependencyParseError(a@),
            AnalysisError::NoProjectOrRequirementsFile(a) => AnalysisErrorView::NoProjectOrRequirementsFile(a@),
        }
    }
}

/// What an error says, in words.
pub open spec fn message_of(e: AnalysisErrorView) -> Seq<char> {
    match e {
        AnalysisErrorView::ParseFileError(source, line, column) => "Failed to parse file: "@
            + source + ". Error reading line "@ + line + " column "@ + column,
        AnalysisErrorView::PyProjectTomlError(cause) => "Failed to parse pyproject.toml: "@ + cause,
        AnalysisErrorView::UnsupportedDependencyFile(path) => "Unsupported dependency file: "@
            + path,
        AnalysisErrorView::UnsupportedProjectFormat(path) => "Unsupported project format: "@ + path,
        AnalysisErrorView::FileReadError(path, cause) => "Failed to read file "@ + path + ": "@
            + cause,
        AnalysisErrorView::DependencyParseError(cause) => "Failed to parse dependency "@ + cause,
        AnalysisErrorView::NoProjectOrRequirementsFile(path) => "No project or requirements file could be automatically discovered in "@
            + path,
    }
}

/// `head` followed by `tail`.
fn followed_by(head: Vec<char>, tail: &str) -> (r: Vec<char>)
    ensures
        r@ == head@ + tail@,
{
    concat(&head, &to_chars(tail))
}

impl AnalysisError {
    /// What the error says, in words.
    pub fn message(&self) -> (r: String)
        ensures
            r@ == message_of(self@),
    {
        let chars = match self {
            AnalysisError::ParseFileError(source, line, column) => {
                let a = followed_by(to_chars("Failed to parse file: "), source.as_str());
                let b = followed_by(a, ". Error reading line ");
                let c = followed_by(b, line.as_str());
                let d = followed_by(c, " column ");
                followed_by(d, column.as_str())
            },
            AnalysisError::PyProjectTomlError(cause) => followed_by(
                to_chars("Failed to parse pyproject.toml: "),
                cause.as_str(),
            ),
            AnalysisError::UnsupportedDependencyFile(path) => followed_by(
                to_chars("Unsupported dependency file: "),
                path.as_str(),
            ),
            AnalysisError::UnsupportedProjectFormat(path) => followed_by(
                to_chars("Unsupported project format: "),
                path.as_str(),
            ),
            AnalysisError::FileReadError(path, cause) => {
                let a = followed_by(to_chars("Failed to read file "), path.as_str());
                let b = followed_by(a, ": ");
                followed_by(b, cause.as_str())
            },
            AnalysisError::DependencyParseError(cause) => followed_by(
                to_chars("Failed to parse dependency "),
                cause.as_str(),
            ),
            AnalysisError::NoProjectOrRequirementsFile(path) => followed_by(
                to_chars(
                    "No project or requirements file could be automatically discovered in ",
                ),
                path.as_str(),
            ),
        };
        from_chars(&chars)
    }
}

} // verus!

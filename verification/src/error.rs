//! What can go wrong in a conversion.
use crate::paths::followed_by;
use vstd::prelude::*;

verus! {

/// An error of the library. Paths and underlying causes are kept as text.
#[derive(Debug)]
pub enum AppError {
    DirectoryCreation { path: String, source: String },
    ZipExtraction { path: String, source: String },
    XmlParsing { path: String, source: String },
    InvalidEpubFormat(String),
    Io { source: String },
    InvalidSourcePath { path: String },
}

/// A shorthand for results whose error is an `AppError`.
pub type Result<T> = std::result::Result<T, AppError>;

/// The message that describes `e`.
pub open spec fn message_of(e: AppError) -> Seq<char> {
    match e {
        AppError::DirectoryCreation { path, source } => "Failed to create directory '"@ + path@
            + "': "@ + source@,
        AppError::ZipExtraction { path, source } => "Failed to extract ZIP archive '"@ + path@
            + "': "@ + source@,
        AppError::XmlParsing { path, source } => "Failed to parse XML file '"@ + path@ + "': "@
            + source@,
        AppError::InvalidEpubFormat(what) => "Invalid EPUB format: "@ + what@,
        AppError::Io { source } => "I/O error: "@ + source@,
        AppError::InvalidSourcePath { path } => "Source file '"@ + path@
            + "' has no valid file name"@,
    }
}

impl AppError {
    /// The message that describes this error.
    pub fn message(&self) -> (r: String)
        ensures
            r@ == message_of(*self),
    {
        match self {
            AppError::DirectoryCreation { path, source } => {
                let head = followed_by("Failed to create directory '", path.as_str());
                let mid = followed_by(head.as_str(), "': ");
                followed_by(mid.as_str(), source.as_str())
            },
            AppError::ZipExtraction { path, source } => {
                let head = followed_by("Failed to extract ZIP archive '", path.as_str());
                let mid = followed_by(head.as_str(), "': ");
                followed_by(mid.as_str(), source.as_str())
            },
            AppError::XmlParsing { path, source } => {
                let head = followed_by("Failed to parse XML file '", path.as_str());
                let mid = followed_by(head.as_str(), "': ");
                followed_by(mid.as_str(), source.as_str())
            },
            AppError::InvalidEpubFormat(what) => {
                followed_by("Invalid EPUB format: ", what.as_str())
            },
            AppError::Io { source } => followed_by("I/O error: ", source.as_str()),
            AppError::InvalidSourcePath { path } => {
                let head = followed_by("Source file '", path.as_str());
                followed_by(head.as_str(), "' has no valid file name")
            },
        }
    }
}

} // verus!

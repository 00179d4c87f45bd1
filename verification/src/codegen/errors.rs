//! Why a generation run can fail.

use vstd::prelude::*;

verus! {

/// The failure that ends a generation run. Every failure of the file
/// system carries the path that was being worked on and the cause as the
/// system gave it.
#[derive(Debug, PartialEq, Eq)]
pub enum GenerationError {
    /// The templates lie in none of the places where they are looked for.
    TemplatesNotFound,
    /// A template could not be read.
    ReadFailure { path: String, cause: String },
    /// A file could not be written, or its permissions could not be set.
    WriteFailure { path: String, cause: String },
    /// A directory of the output tree could not be made.
    DirectoryCreationFailure { path: String, cause: String },
}

/// What a [`GenerationError`] is to a contract.
pub enum GenerationErrorView {
    TemplatesNotFound,
    ReadFailure { path: Seq<char>, cause: Seq<char> },
    WriteFailure { path: Seq<char>, cause: Seq<char> },
    DirectoryCreationFailure { path: Seq<char>, cause: Seq<char> },
}

impl View for GenerationError {
    type V = GenerationErrorView;

    open spec fn view(&self) -> GenerationErrorView {
        match self {
            GenerationError::TemplatesNotFound => GenerationErrorView::TemplatesNotFound,
            GenerationError::ReadFailure { path, cause } => GenerationErrorView::ReadFailure {
                path: path@,
                cause: cause@,
            },
            GenerationError::WriteFailure { path, cause } => GenerationErrorView::WriteFailure {
                path: path@,
                cause: cause@,
            },
            GenerationError::DirectoryCreationFailure { path, cause } =>
                GenerationErrorView::DirectoryCreationFailure { path: path@, cause: cause@ },
        }
    }
}

impl GenerationErrorView {
    /// The sentence that tells a user what went wrong.
    pub open spec fn text(self) -> Seq<char> {
        match self {
            GenerationErrorView::TemplatesNotFound => "Could not find templates directory"@,
            GenerationErrorView::ReadFailure { path, cause } => "Failed to read "@ + path + ": "@
                + cause,
            GenerationErrorView::WriteFailure { path, cause } => "Failed to write "@ + path
                + ": "@ + cause,
            GenerationErrorView::DirectoryCreationFailure { path, cause } =>
                "Failed to create directory "@ + path + ": "@ + cause,
        }
    }
}

impl Clone for GenerationError {
    fn clone(&self) -> (copy: GenerationError)
        ensures
            copy@ == self@,
    {
        match self {
            GenerationError::TemplatesNotFound => GenerationError::TemplatesNotFound,
            GenerationError::ReadFailure { path, cause } => GenerationError::ReadFailure {
                path: path.clone(),
                cause: cause.clone(),
            },
            GenerationError::WriteFailure { path, cause } => GenerationError::WriteFailure {
                path: path.clone(),
                cause: cause.clone(),
            },
            GenerationError::DirectoryCreationFailure { path, cause } =>
                GenerationError::DirectoryCreationFailure {
                    path: path.clone(),
                    cause: cause.clone(),
                },
        }
    }
}

/// `lead`, then `path`, a colon, and `cause`.
fn sentence(lead: &str, path: &str, cause: &str) -> (text: String)
    ensures
        text@ == lead@ + path@ + ": "@ + cause@,
{
    let mut text = lead.to_owned();
    text.append(path);
    text.append(": ");
    text.append(cause);
    text
}

impl GenerationError {
    /// The sentence that tells a user what went wrong.
    pub fn message(&self) -> (text: String)
        ensures
            text@ == self@.text(),
    {
        match self {
            GenerationError::TemplatesNotFound => "Could not find templates directory".to_owned(),
            GenerationError::ReadFailure { path, cause } => sentence(
                "Failed to read ",
                path.as_str(),
                cause.as_str(),
            ),
            GenerationError::WriteFailure { path, cause } => sentence(
                "Failed to write ",
                path.as_str(),
                cause.as_str(),
            ),
            GenerationError::DirectoryCreationFailure { path, cause } => sentence(
                "Failed to create directory ",
                path.as_str(),
                cause.as_str(),
            ),
        }
    }
}

} // verus!

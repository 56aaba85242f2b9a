//! The ways in which the pass fails. Each failure aborts the whole transform.

use vstd::prelude::*;
use vstd::string::StringExecFns;
use crate::ast::ExprKind;

verus! {

/// Why the transform of a program was aborted.
#[derive(Debug, PartialEq, Eq)]
pub enum TransformError {
    /// The marker was called without arguments.
    MissingArgument,
    /// The first argument of the marker call is not a string literal.
    InvalidArgumentType { found: ExprKind },
    /// No working directory was supplied.
    MissingCwd,
    /// Nothing exists at the resolved path.
    FileNotFound { path: String },
    /// The file at the resolved path exists but cannot be read as text.
    ReadFailure { path: String },
}

/// The mathematical value of a [`TransformError`].
pub enum TransformErrorView {
    MissingArgument,
    InvalidArgumentType { found: ExprKind },
    MissingCwd,
    FileNotFound { path: Seq<char> },
    ReadFailure { path: Seq<char> },
}

impl View for TransformError {
    type V = TransformErrorView;

    open spec fn view(&self) -> TransformErrorView {
        match *self {
            TransformError::MissingArgument => TransformErrorView::MissingArgument,
            TransformError::InvalidArgumentType { found } => TransformErrorView::InvalidArgumentType {
                found,
            },
            TransformError::MissingCwd => TransformErrorView::MissingCwd,
            TransformError::FileNotFound { path } => TransformErrorView::FileNotFound { path: path@ },
            TransformError::ReadFailure { path } => TransformErrorView::ReadFailure { path: path@ },
        }
    }
}

impl TransformErrorView {
    /// The text shown to the user: the condition that fired, followed by the
    /// offending path or argument kind where there is one.
    pub open spec fn message(self) -> Seq<char> {
        match self {
            TransformErrorView::MissingArgument => "includeBytes(): should have one argument"@,
            TransformErrorView::InvalidArgumentType { found } =>
                "includeBytes(): should only have a string literal as an argument, found "@
                    + found.name(),
            TransformErrorView::MissingCwd =>
                "includeBytes(): current working directory (cwd) is not set"@,
            TransformErrorView::FileNotFound { path } => "includeBytes(): file does not exist: "@
                + path,
            TransformErrorView::ReadFailure { path } => "includeBytes(): failed to read file: "@
                + path,
        }
    }
}

impl TransformError {
    /// The text shown to the user for this failure.
    pub fn message(&self) -> (r: String)
        ensures
            r@ == self@.message(),
    {
        match self {
            TransformError::MissingArgument => String::from_str(
                "includeBytes(): should have one argument",
            ),
            TransformError::InvalidArgumentType { found } => {
                let mut text = String::from_str(
                    "includeBytes(): should only have a string literal as an argument, found ",
                );
                text.append(found.describe());
                text
            },
            TransformError::MissingCwd => String::from_str(
                "includeBytes(): current working directory (cwd) is not set",
            ),
            TransformError::FileNotFound { path } => {
                let mut text = String::from_str("includeBytes(): file does not exist: ");
                text.append(path.as_str());
                text
            },
            TransformError::ReadFailure { path } => {
                let mut text = String::from_str("includeBytes(): failed to read file: ");
                text.append(path.as_str());
                text
            },
        }
    }
}

} // verus!

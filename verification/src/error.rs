//! The ways in which compiling a script fails.

use vstd::prelude::*;
use vstd::string::StringExecFns;

verus! {

/// What is reported when a node has a shape that the grammar never yields.
pub const UNEXPECTED_ERROR: &'static str =
    "Unexpected error encountered. Please create an issue, including the input that caused the error, at https://github.com/appybara13/chatter-macros.";

/// What precedes the label in the report of a jump to an undeclared label.
pub const UNRESOLVED_LABEL: &'static str = "Goto names a branch that is never declared: ";

/// What the grammar matcher reports of a text that it rejects.
#[derive(Debug, PartialEq, Eq)]
pub struct SyntaxError {
    pub message: String,
    pub line: usize,
    pub column: usize,
}

/// Why no resolved sequence was produced.
#[derive(Debug, PartialEq, Eq)]
pub enum ChatterError {
    /// The text does not conform to the grammar.
    Syntax(SyntaxError),
    /// A goto names a label that the script never declares.
    UnresolvedLabel { label: String },
    /// A node has a shape that the grammar never yields.
    InternalContract,
}

/// What a [`SyntaxError`] holds, as mathematical values.
pub struct SyntaxErrorView {
    pub message: Seq<char>,
    pub line: int,
    pub column: int,
}

/// What a [`ChatterError`] holds, as mathematical values.
pub enum ChatterErrorView {
    Syntax(SyntaxErrorView),
    UnresolvedLabel { label: Seq<char> },
    InternalContract,
}

impl View for SyntaxError {
    type V = SyntaxErrorView;

    open spec fn view(&self) -> SyntaxErrorView {
        SyntaxErrorView {
            message: self.message@,
            line: self.line as int,
            column: self.column as int,
        }
    }
}

impl View for ChatterError {
    type V = ChatterErrorView;

    open spec fn view(&self) -> ChatterErrorView {
        match *self {
            ChatterError::Syntax(fault) => ChatterErrorView::Syntax(fault@),
            ChatterError::UnresolvedLabel { label } => ChatterErrorView::UnresolvedLabel {
                label: label@,
            },
            ChatterError::InternalContract => ChatterErrorView::InternalContract,
        }
    }
}

impl ChatterError {
    /// The text of the report.
    pub open spec fn spec_message(self) -> Seq<char> {
        match self {
            ChatterError::Syntax(fault) => fault.message@,
            ChatterError::UnresolvedLabel { label } => UNRESOLVED_LABEL@ + label@,
            ChatterError::InternalContract => UNEXPECTED_ERROR@,
        }
    }

    /// The text of the report: the matcher's own message, the undeclared
    /// label after a fixed introduction, or the fixed text for a node of
    /// unexpected shape.
    pub fn message(&self) -> (text: String)
        ensures
            text@ == self.spec_message(),
    {
        match self {
            ChatterError::Syntax(fault) => fault.message.clone(),
            ChatterError::UnresolvedLabel { label } => String::from_str(UNRESOLVED_LABEL).concat(
                label.as_str(),
            ),
            ChatterError::InternalContract => String::from_str(UNEXPECTED_ERROR),
        }
    }
}

} // verus!

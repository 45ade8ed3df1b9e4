use crate::text::push_text;
use vstd::prelude::*;
use vstd::string::*;

verus! {

/// Why a tool could not answer.
#[derive(Clone, Debug, PartialEq, Eq)]
pub enum ToolError {
    InvalidArgs(String),
    ExecutionFailed(String),
    NotFound(String),
}

impl ToolError {
    /// The detail that the error carries.
    pub open spec fn detail(self) -> Seq<char> {
        match self {
            ToolError::InvalidArgs(detail) => detail@,
            ToolError::ExecutionFailed(detail) => detail@,
            ToolError::NotFound(detail) => detail@,
        }
    }

    /// The text of the error: what kind it is, then its detail.
    pub open spec fn text(self) -> Seq<char> {
        match self {
            ToolError::InvalidArgs(detail) => "Invalid arguments: "@ + detail@,
            ToolError::ExecutionFailed(detail) => "Execution failed: "@ + detail@,
            ToolError::NotFound(detail) => "Not found: "@ + detail@,
        }
    }

    /// The text shown to a person.
    pub fn to_string(&self) -> (text: String)
        ensures
            text@ == self.text(),
    {
        match self {
            ToolError::InvalidArgs(detail) => {
                let mut text = String::from_str("Invalid arguments: ");
                push_text(&mut text, detail.as_str());
                text
            },
            ToolError::ExecutionFailed(detail) => {
                let mut text = String::from_str("Execution failed: ");
                push_text(&mut text, detail.as_str());
                text
            },
            ToolError::NotFound(detail) => {
                let mut text = String::from_str("Not found: ");
                push_text(&mut text, detail.as_str());
                text
            },
        }
    }
}

} // verus!

//! Failures of the search experiments.

use vstd::prelude::*;

use crate::search::policy::PolicyError;

verus! {

/// A failure of a search experiment.
#[derive(Clone, Copy, Debug, PartialEq, Eq)]
pub enum ExperimentError {
    /// The query is not run.
    Policy(PolicyError),
    /// A required value is missing or malformed.
    InvalidDocument(&'static str),
    /// A number is out of range.
    NumericRange,
}

/// A failure as a mathematical value.
pub enum ExperimentErrorModel {
    Policy(PolicyError),
    InvalidDocument(Seq<char>),
    NumericRange,
}

impl View for ExperimentError {
    type V = ExperimentErrorModel;

    open spec fn view(&self) -> ExperimentErrorModel {
        match self {
            ExperimentError::Policy(error) => ExperimentErrorModel::Policy(*error),
            ExperimentError::InvalidDocument(what) => ExperimentErrorModel::InvalidDocument(what@),
            ExperimentError::NumericRange => ExperimentErrorModel::NumericRange,
        }
    }
}

/// Result of a search experiment.
pub type ExperimentResult<T> = Result<T, ExperimentError>;

/// The identifier of a run: letters, digits, hyphens and underscores, at least one.
pub open spec fn is_identifier(text: Seq<char>) -> bool {
    &&& text.len() > 0
    &&& forall|i: int| 0 <= i < text.len() ==> is_identifier_char(#[trigger] text[i])
}

/// A character of an identifier.
pub open spec fn is_identifier_char(c: char) -> bool {
    ||| '0' <= c <= '9'
    ||| 'a' <= c <= 'z'
    ||| 'A' <= c <= 'Z'
    ||| c == '-'
    ||| c == '_'
}

/// Whether a text is an identifier.
pub fn valid_identifier(text: &str) -> (r: bool)
    ensures
        r == is_identifier(text@),
{
    let chars = crate::text::chars_of(text);
    let mut i: usize = 0;
    while i < chars.len()
        invariant
            i <= chars@.len(),
            chars@ == text@,
            forall|k: int| 0 <= k < i ==> is_identifier_char(#[trigger] text@[k]),
        decreases chars@.len() - i,
    {
        let c: char = chars[i];
        if !(('0' <= c && c <= '9') || ('a' <= c && c <= 'z') || ('A' <= c && c <= 'Z') || c == '-'
            || c == '_') {
            assert(!is_identifier_char(text@[i as int]));
            return false;
        }
        i = i + 1;
    }
    chars.len() > 0
}

} // verus!

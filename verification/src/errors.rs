//! Translation failures: every error carries a human-readable description
//! of the offending sub-node and bubbles unchanged to the caller.

use vstd::prelude::*;

verus! {

/// A failed translation of one sub-node. Translation is all-or-nothing: an
/// error from any sub-translator aborts the enclosing function's translation
/// with no partial output.
#[derive(Clone, Debug, PartialEq, Eq)]
pub enum TranslationError {
    /// A parameter form the target language cannot express.
    UnsupportedParameter(String),
    /// A statement variant the statement translator does not handle.
    UnsupportedStatement(String),
}

/// The mathematical form of a [`TranslationError`].
pub enum TranslationErrorView {
    UnsupportedParameter(Seq<char>),
    UnsupportedStatement(Seq<char>),
}

impl View for TranslationError {
    type V = TranslationErrorView;

    open spec fn view(&self) -> TranslationErrorView {
        match self {
            TranslationError::UnsupportedParameter(d) => TranslationErrorView::UnsupportedParameter(
                d@,
            ),
            TranslationError::UnsupportedStatement(d) => TranslationErrorView::UnsupportedStatement(
                d@,
            ),
        }
    }
}

impl TranslationError {
    /// The description of the offending sub-node.
    pub fn description(&self) -> (d: &String)
        ensures
            match self@ {
                TranslationErrorView::UnsupportedParameter(s) => d@ == s,
                TranslationErrorView::UnsupportedStatement(s) => d@ == s,
            },
    {
        match self {
            TranslationError::UnsupportedParameter(d) => d,
            TranslationError::UnsupportedStatement(d) => d,
        }
    }
}

} // verus!

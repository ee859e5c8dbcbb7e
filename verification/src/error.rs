//! Failure values of the parser.
//!
//! Every failure is terminal: the caller gets either a complete document
//! or exactly one error describing the first problem encountered.  The
//! internal-consistency failures of the design (a parse-tree shape at odds
//! with the grammar, a token that matched a shape but cannot be coerced)
//! cannot arise here: the parser is verified to produce only shapes the
//! resolver accepts, so no variant exists for them.

use vstd::prelude::*;

verus! {

/// The first way in which a line failed to match the grammar.
#[derive(Debug, Clone, Copy, PartialEq, Eq)]
pub enum SyntaxErrorKind {
    /// A section header without a valid identifier after `[`.
    InvalidSectionName,
    /// A section header whose `]` is missing.
    UnclosedSection,
    /// Text other than whitespace after the `]` of a section header.
    TrailingAfterSection,
    /// A line that is not blank, not a comment, not a section header, and
    /// does not start with a valid key identifier.
    InvalidKey,
    /// A key without `=` after it.
    MissingEquals,
    /// An `=` followed by no value token before the end of line or a
    /// comment marker.
    MissingValue,
    /// A quoted value without a closing quote on its line.
    UnclosedQuote,
    /// Text other than whitespace or a comment after a quoted value.
    TrailingAfterQuote,
}

impl SyntaxErrorKind {
    /// The text of [`SyntaxErrorKind::description`].
    pub open spec fn description_spec(&self) -> Seq<char> {
        match self {
            SyntaxErrorKind::InvalidSectionName => "invalid section name"@,
            SyntaxErrorKind::UnclosedSection => "missing ']' in section header"@,
            SyntaxErrorKind::TrailingAfterSection => "unexpected text after section header"@,
            SyntaxErrorKind::InvalidKey => "invalid key"@,
            SyntaxErrorKind::MissingEquals => "missing '=' after key"@,
            SyntaxErrorKind::MissingValue => "missing value after '='"@,
            SyntaxErrorKind::UnclosedQuote => "unterminated quoted string"@,
            SyntaxErrorKind::TrailingAfterQuote => "unexpected text after quoted value"@,
        }
    }

    /// A short human-readable description of the mismatch.
    pub fn description(&self) -> (r: String)
        ensures
            r@ == self.description_spec(),
    {
        match self {
            SyntaxErrorKind::InvalidSectionName => String::from_str("invalid section name"),
            SyntaxErrorKind::UnclosedSection => String::from_str("missing ']' in section header"),
            SyntaxErrorKind::TrailingAfterSection => String::from_str(
                "unexpected text after section header",
            ),
            SyntaxErrorKind::InvalidKey => String::from_str("invalid key"),
            SyntaxErrorKind::MissingEquals => String::from_str("missing '=' after key"),
            SyntaxErrorKind::MissingValue => String::from_str("missing value after '='"),
            SyntaxErrorKind::UnclosedQuote => String::from_str("unterminated quoted string"),
            SyntaxErrorKind::TrailingAfterQuote => String::from_str(
                "unexpected text after quoted value",
            ),
        }
    }
}

/// What a failed parse returns.
#[derive(Debug, Clone, PartialEq)]
pub enum IniError {
    /// The input does not match the grammar.  `line` and `column` are
    /// one-based positions of the first mismatch.
    SyntaxError { line: usize, column: usize, kind: SyntaxErrorKind },
    /// The input text could not be obtained from its source.  The parser
    /// itself never returns this; it exists for the collaborator that
    /// supplies the text.
    InputAccessError(String),
}

/// A grammar mismatch within one line: its zero-based column and its kind.
#[derive(Debug, Clone, Copy, PartialEq, Eq)]
pub struct LineFail {
    pub column: usize,
    pub kind: SyntaxErrorKind,
}

} // verus!

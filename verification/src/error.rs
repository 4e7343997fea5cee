//! What the parser reports when the text is not in the language.

use vstd::prelude::*;
use vstd::string::*;

verus! {

/// Why a production of the grammar refused the text.
#[derive(Clone, Copy, Debug, PartialEq, Eq, Structural)]
pub enum RibParseError {
    /// No expression starts here.
    ExpectedExpression,
    /// No identifier starts here, or the word here is reserved.
    ExpectedIdentifier,
    /// What stands right of a worker's `.` is not a function call.
    InvalidFunctionCall,
    /// A string literal is opened and never closed.
    UnterminatedLiteral,
    /// The text goes on with something that the grammar has no place for.
    UnexpectedToken,
}

impl RibParseError {
    /// The wording of each error.
    pub open spec fn text(self) -> Seq<char> {
        match self {
            RibParseError::ExpectedExpression => "expected expression"@,
            RibParseError::ExpectedIdentifier => "expected identifier"@,
            RibParseError::InvalidFunctionCall => "Invalid function call"@,
            RibParseError::UnterminatedLiteral => "unterminated string literal"@,
            RibParseError::UnexpectedToken => "unexpected token"@,
        }
    }

    /// The message to show for this error.
    pub fn message(&self) -> (r: String)
        ensures
            r@ == self.text(),
    {
        match self {
            RibParseError::ExpectedExpression => String::from_str("expected expression"),
            RibParseError::ExpectedIdentifier => String::from_str("expected identifier"),
            RibParseError::InvalidFunctionCall => String::from_str("Invalid function call"),
            RibParseError::UnterminatedLiteral => String::from_str("unterminated string literal"),
            RibParseError::UnexpectedToken => String::from_str("unexpected token"),
        }
    }
}

/// An error together with the offset in the text, counted in characters,
/// at which it was found.
#[derive(Clone, Copy, Debug, PartialEq, Eq, Structural)]
pub struct ParseFailure {
    pub error: RibParseError,
    pub position: usize,
}

impl ParseFailure {
    /// The message to show for this failure.
    pub fn message(&self) -> (r: String)
        ensures
            r@ == self.error.text(),
    {
        self.error.message()
    }
}

} // verus!

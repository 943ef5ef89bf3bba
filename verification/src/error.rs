//! The ways a parse can fail.

use vstd::prelude::*;

verus! {

/// Why a stage of the pipeline gave up. Every stage stops at the first
/// malformed construct it meets, reading left to right, and reports it.
#[derive(Debug, Clone, Copy, PartialEq, Eq, Structural)]
pub enum ParseError {
    /// A quote was opened and the input ended before the closing quote.
    UnterminatedString,
    /// The input holds a character that starts no lexeme: a digit, a lone
    /// `:`, an operator. The scanner rejects such input rather than guess.
    UnexpectedCharacter,
    /// A closing bracket does not have the kind of the block it closes.
    MismatchedBracket,
    /// A closing bracket with no block left to close, or input that ends
    /// with a block still open.
    UnbalancedBrackets,
    /// A function marker is not followed by a data block.
    MissingFunctionDataBlock,
    /// A function marker and its data block are not followed by a code block.
    MissingFunctionCodeBlock,
    /// A name is the last token of its block, so nothing tells whether it
    /// is assigned to.
    NameAtEndOfBlock,
    /// An assignment marker is the last token of its block.
    InvalidAssignmentMissingValue,
}

} // verus!

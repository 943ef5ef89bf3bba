//! A front end for a small block-structured language: source text is scanned
//! into lexemes, the lexemes are classified into tokens, the tokens are
//! assembled into a tree of nested blocks, and then function declarations
//! and assignments are collapsed into single nodes.
//!
//! Every stage is a function from its input to a new value or a
//! [`ParseError`]. Its contract states the outcome, error included, over
//! the models [`SpecToken`] and [`SpecBlock`]. The modules [`nesting`] and
//! [`shape`] state what follows for all inputs: which inputs the assembler
//! accepts, and which shape every finished tree has.

pub mod assembler;
pub mod assignments;
pub mod classifier;
pub mod error;
pub mod functions;
pub mod nesting;
mod order;
pub mod parser;
pub mod scanner;
pub mod shape;
pub mod token;
pub mod words;

pub use assembler::{parse_blocks, stack_blocks};
pub use assignments::parse_assignments;
pub use classifier::initial_tokenize;
pub use error::ParseError;
pub use functions::parse_functions;
pub use parser::parse_strings;
pub use scanner::{letter_flags, scan_chars, split_tokens};
pub use token::{Block, BlockKind, SpecBlock, SpecToken, Token};
pub use words::{lex, split_words, trim_all};

//! The whole pipeline, from source text to finished tree.

use vstd::prelude::*;
use crate::assembler::{assemble, parse_blocks};
use crate::assignments::{lift_assignments, parse_assignments};
use crate::classifier::{classify_all, initial_tokenize};
use crate::error::ParseError;
use crate::functions::{lift_functions, parse_functions};
use crate::scanner::{alphabetic_flags, scan, split_tokens, strings_view};
use crate::shape::{all_well_formed, no_marker, lemma_parsed_is_well_formed};
use crate::token::{Block, BlockKind, SpecBlock, block_outcome};

verus! {

/// The tree that a run of lexemes stands for: the lexemes are classified,
/// the tokens assembled into blocks, then function declarations and after
/// them assignments are lifted. The first stage that fails decides the
/// error.
pub open spec fn parse_lexemes(lexemes: Seq<Seq<char>>) -> Result<SpecBlock, ParseError> {
    match assemble(classify_all(lexemes)) {
        Err(e) => Err(e),
        Ok(root) => match lift_functions(root) {
            Err(e) => Err(e),
            Ok(lifted) => lift_assignments(lifted),
        },
    }
}

/// The tree that a source text stands for, where `letters` tells which of
/// its characters may stand in a name.
pub open spec fn parse_with(text: Seq<char>, letters: Seq<bool>) -> Result<SpecBlock, ParseError> {
    match scan(text, letters) {
        Err(e) => Err(e),
        Ok(lexemes) => parse_lexemes(lexemes),
    }
}

/// The tree that a source text stands for; the alphabetic characters are
/// those that may stand in a name.
pub open spec fn parse(text: Seq<char>) -> Result<SpecBlock, ParseError> {
    parse_with(text, alphabetic_flags(text))
}

/// Runs the stages that follow the scanner on its lexemes.
pub fn parse_strings(lexemes: Vec<String>) -> (r: Result<Block, ParseError>)
    ensures
        block_outcome(r) == parse_lexemes(strings_view(lexemes@)),
        r matches Ok(root) ==> {
            &&& root@.kind == BlockKind::Code
            &&& no_marker(root@.tokens)
            &&& all_well_formed(root@.tokens)
        },
{
    proof {
        lemma_parsed_is_well_formed(strings_view(lexemes@));
    }
    let tokens = initial_tokenize(lexemes);
    let root = match parse_blocks(tokens) {
        Ok(root) => root,
        Err(e) => {
            return Err(e);
        },
    };
    let lifted = match parse_functions(root) {
        Ok(lifted) => lifted,
        Err(e) => {
            return Err(e);
        },
    };
    parse_assignments(lifted)
}

impl Block {
    /// Parses source text into its tree: the root block, of kind `Code`,
    /// with nested blocks, function declarations and assignments in place.
    pub fn from_string(string: String) -> (r: Result<Block, ParseError>)
        ensures
            block_outcome(r) == parse(string@),
            r matches Ok(root) ==> {
                &&& root@.kind == BlockKind::Code
                &&& no_marker(root@.tokens)
                &&& all_well_formed(root@.tokens)
            },
    {
        match split_tokens(&string) {
            Ok(lexemes) => parse_strings(lexemes),
            Err(e) => Err(e),
        }
    }
}

} // verus!

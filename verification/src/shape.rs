//! The shape that every tree built by the pipeline has.

use vstd::prelude::*;
use crate::assembler::{assemble, assemble_from, assemble_step, empty_block};
use crate::assignments::{assigned_value, lift_assignments, lift_assignments_in};
use crate::classifier::{classify_all, lemma_classified_are_atoms};
use crate::functions::{block_of_kind, lift_functions, lift_functions_in};
use crate::nesting::lemma_assemble_accepts_well_nested;
use crate::parser::parse_lexemes;
use crate::token::{BlockKind, SpecBlock, SpecToken};

verus! {

/// Whether no function marker stands directly among the tokens.
pub open spec fn no_marker(ts: Seq<SpecToken>) -> bool {
    forall|i: int| 0 <= i < ts.len() ==> !(#[trigger] ts[i] is StartFunction)
}

/// Whether a token is well formed, at every depth:
/// a function has a data block and a code block, in this order, and no
/// function marker is left directly in its body; an assignment assigns to
/// a name; and the tokens inside blocks, functions and assignments are
/// well formed themselves.
pub open spec fn well_formed(t: SpecToken) -> bool
    decreases t,
{
    match t {
        SpecToken::BlockToken(b) => forall|i: int|
            0 <= i < b.tokens.len() ==> well_formed(#[trigger] b.tokens[i]),
        SpecToken::Function { data, code } => {
            &&& data.kind == BlockKind::Data
            &&& code.kind == BlockKind::Code
            &&& no_marker(code.tokens)
            &&& forall|i: int| 0 <= i < data.tokens.len() ==> well_formed(#[trigger] data.tokens[i])
            &&& forall|i: int| 0 <= i < code.tokens.len() ==> well_formed(#[trigger] code.tokens[i])
        },
        SpecToken::Assignment { set, to } => *set is Name && well_formed(*to),
        _ => true,
    }
}

/// Whether every token of a run is well formed.
pub open spec fn all_well_formed(ts: Seq<SpecToken>) -> bool {
    forall|i: int| 0 <= i < ts.len() ==> well_formed(#[trigger] ts[i])
}

/// Whether the tokens of every block of a stack are well formed.
pub open spec fn stack_well_formed(stack: Seq<SpecBlock>) -> bool {
    forall|i: int| 0 <= i < stack.len() ==> all_well_formed(#[trigger] stack[i].tokens)
}

/// Reading well-formed tokens keeps the blocks of the stack well formed.
pub proof fn lemma_assemble_from_keeps_shape(stack: Seq<SpecBlock>, ts: Seq<SpecToken>)
    requires
        stack_well_formed(stack),
        all_well_formed(ts),
    ensures
        assemble_from(stack, ts) matches Ok(after) ==> stack_well_formed(after),
    decreases ts.len(),
{
    if ts.len() > 0 {
        if let Ok(next) = assemble_step(stack, ts[0]) {
            assert(stack_well_formed(next));
            lemma_assemble_from_keeps_shape(next, ts.skip(1));
        }
    }
}

/// Well-formed tokens assemble to a root whose tokens are well formed.
pub proof fn lemma_assemble_keeps_shape(ts: Seq<SpecToken>)
    requires
        all_well_formed(ts),
    ensures
        assemble(ts) matches Ok(root) ==> all_well_formed(root.tokens),
{
    lemma_assemble_from_keeps_shape(seq![empty_block(BlockKind::Code)], ts);
}

/// Lifting the function declarations of well-formed tokens gives
/// well-formed tokens, with no function marker left among them.
pub proof fn lemma_lift_functions_keeps_shape(ts: Seq<SpecToken>)
    requires
        all_well_formed(ts),
    ensures
        lift_functions_in(ts) matches Ok(out) ==> all_well_formed(out) && no_marker(out),
    decreases ts,
{
    if ts.len() > 0 {
        if ts[0] is StartFunction {
            if ts.len() >= 3 {
                if let Some(data) = block_of_kind(ts[1], BlockKind::Data) {
                    if let Some(body) = block_of_kind(ts[2], BlockKind::Code) {
                        lemma_lift_functions_keeps_shape(body.tokens);
                        lemma_lift_functions_keeps_shape(ts.skip(3));
                        if let Ok(code) = lift_functions(body) {
                            assert(well_formed(SpecToken::Function { data, code }));
                        }
                    }
                }
            }
        } else {
            lemma_lift_functions_keeps_shape(ts.skip(1));
        }
    }
}

/// Lifting the assignments of well-formed tokens gives well-formed
/// tokens, and brings no function marker where there was none.
pub proof fn lemma_lift_assignments_keeps_shape(ts: Seq<SpecToken>)
    requires
        all_well_formed(ts),
    ensures
        lift_assignments_in(ts) matches Ok(out) ==> {
            &&& all_well_formed(out)
            &&& no_marker(ts) ==> no_marker(out)
        },
    decreases ts,
{
    if ts.len() > 0 {
        match ts[0] {
            SpecToken::Name(_) => {
                if ts.len() >= 2 {
                    if ts[1] is Assign {
                        if ts.len() >= 3 {
                            if let SpecToken::Function { data, code } = ts[2] {
                                lemma_lift_assignments_keeps_shape(code.tokens);
                            }
                            lemma_lift_assignments_keeps_shape(ts.skip(3));
                            if let Ok(to) = assigned_value(ts[2]) {
                                assert(well_formed(to));
                            }
                        }
                    } else {
                        lemma_lift_assignments_keeps_shape(ts.skip(2));
                    }
                }
            },
            SpecToken::BlockToken(b) => {
                lemma_lift_assignments_keeps_shape(b.tokens);
                lemma_lift_assignments_keeps_shape(ts.skip(1));
                if let Ok(lifted) = lift_assignments(b) {
                    assert(well_formed(SpecToken::BlockToken(lifted)));
                }
            },
            _ => {
                lemma_lift_assignments_keeps_shape(ts.skip(1));
            },
        }
    }
}

/// Every tree that the pipeline builds is well formed: its root is a code
/// block, each function in it has its data block and its code block,
/// each assignment assigns to a name, and no function marker is left
/// among the tokens of the root or of a function's body.
pub proof fn lemma_parsed_is_well_formed(lexemes: Seq<Seq<char>>)
    ensures
        parse_lexemes(lexemes) matches Ok(root) ==> {
            &&& root.kind == BlockKind::Code
            &&& no_marker(root.tokens)
            &&& all_well_formed(root.tokens)
        },
{
    let tokens = classify_all(lexemes);
    lemma_classified_are_atoms(lexemes);
    lemma_assemble_keeps_shape(tokens);
    lemma_assemble_accepts_well_nested(tokens);
    if let Ok(root) = assemble(tokens) {
        lemma_lift_functions_keeps_shape(root.tokens);
        if let Ok(lifted) = lift_functions(root) {
            lemma_lift_assignments_keeps_shape(lifted.tokens);
        }
    }
}

} // verus!

//! What the block assembler accepts and what it builds: it accepts the
//! inputs whose brackets are well nested, and it builds the tree that,
//! written flat, is the input again.

use vstd::prelude::*;
use crate::assembler::{
    append_to_top, assemble, assemble_from, assemble_step, empty_block, open_blocks,
};
use crate::classifier::{classify_all, lemma_classified_are_atoms};
use crate::error::ParseError;
use crate::token::{BlockKind, SpecBlock, SpecToken};

verus! {

/// What one token does to the kinds of the brackets that are open,
/// outermost first: an opening bracket adds its kind, a closing bracket
/// must meet its own kind innermost and takes it away, any other token
/// changes nothing. `None` where a closing bracket has no partner.
pub open spec fn nest_step(open: Seq<BlockKind>, t: SpecToken) -> Option<Seq<BlockKind>> {
    match t {
        SpecToken::OpenBlock(kind) => Some(open.push(kind)),
        SpecToken::CloseBlock(kind) => if open.len() > 0 && open.last() == kind {
            Some(open.drop_last())
        } else {
            None
        },
        _ => Some(open),
    }
}

/// The kinds of the brackets that are open after all of `ts`.
pub open spec fn nest_from(open: Seq<BlockKind>, ts: Seq<SpecToken>) -> Option<Seq<BlockKind>>
    decreases ts.len(),
{
    if ts.len() == 0 {
        Some(open)
    } else {
        match nest_step(open, ts[0]) {
            None => None,
            Some(next) => nest_from(next, ts.skip(1)),
        }
    }
}

/// Every closing bracket closes the innermost open bracket, which is of its
/// own kind, and no bracket is left open at the end.
pub open spec fn well_nested(ts: Seq<SpecToken>) -> bool {
    nest_from(Seq::empty(), ts) == Some(Seq::<BlockKind>::empty())
}

/// The kinds of the blocks of a stack that stand inside its root.
pub open spec fn inner_kinds(stack: Seq<SpecBlock>) -> Seq<BlockKind> {
    Seq::new((stack.len() - 1) as nat, |i: int| stack[i + 1].kind)
}

/// The assembler's stack and the open brackets move in step: the assembler
/// fails exactly where a closing bracket has no partner, then with one of
/// the two bracket errors, and otherwise the blocks inside the root have
/// the kinds of the open brackets.
pub proof fn lemma_assemble_follows_nesting(stack: Seq<SpecBlock>, ts: Seq<SpecToken>)
    requires
        stack.len() > 0,
    ensures
        match assemble_from(stack, ts) {
            Ok(after) => {
                &&& after.len() > 0
                &&& after[0].kind == stack[0].kind
                &&& nest_from(inner_kinds(stack), ts) == Some(inner_kinds(after))
            },
            Err(e) => {
                &&& nest_from(inner_kinds(stack), ts) is None
                &&& (e == ParseError::MismatchedBracket || e == ParseError::UnbalancedBrackets)
            },
        },
    decreases ts.len(),
{
    if ts.len() > 0 {
        if let Ok(next) = assemble_step(stack, ts[0]) {
            assert(nest_step(inner_kinds(stack), ts[0]) == Some(inner_kinds(next)));
            lemma_assemble_follows_nesting(next, ts.skip(1));
        }
    }
}

/// The assembler yields a root block exactly for input whose brackets are
/// well nested, whatever stands between them. The root is of kind `Code`.
/// On any other input it fails with `MismatchedBracket` or
/// `UnbalancedBrackets`.
pub proof fn lemma_assemble_accepts_well_nested(ts: Seq<SpecToken>)
    ensures
        assemble(ts) is Ok <==> well_nested(ts),
        assemble(ts) matches Ok(root) ==> root.kind == BlockKind::Code,
        assemble(ts) matches Err(e) ==> e == ParseError::MismatchedBracket || e
            == ParseError::UnbalancedBrackets,
{
    let start = seq![empty_block(BlockKind::Code)];
    assert(inner_kinds(start) =~= Seq::<BlockKind>::empty());
    lemma_assemble_follows_nesting(start, ts);
    if let Ok(after) = open_blocks(ts) {
        assert(after.len() == 1 <==> inner_kinds(after) =~= Seq::<BlockKind>::empty());
    }
}

/// The flat run that a token is written as: a nested block is its opening
/// bracket, its tokens written flat, and its closing bracket; any other
/// token is itself.
pub open spec fn flatten_token(t: SpecToken) -> Seq<SpecToken>
    decreases t,
{
    match t {
        SpecToken::BlockToken(b) => seq![SpecToken::OpenBlock(b.kind)] + flatten(b.tokens)
            + seq![SpecToken::CloseBlock(b.kind)],
        _ => seq![t],
    }
}

/// The flat run that a run of tokens with nested blocks is written as.
pub open spec fn flatten(ts: Seq<SpecToken>) -> Seq<SpecToken>
    decreases ts,
{
    if ts.len() == 0 {
        Seq::empty()
    } else {
        flatten_token(ts[0]) + flatten(ts.skip(1))
    }
}

/// Whether a token holds no bracket token, at any depth of nested blocks.
pub open spec fn token_bracket_free(t: SpecToken) -> bool
    decreases t,
{
    match t {
        SpecToken::OpenBlock(_) => false,
        SpecToken::CloseBlock(_) => false,
        SpecToken::BlockToken(b) => bracket_free(b.tokens),
        _ => true,
    }
}

/// Whether a run of tokens holds no bracket token, at any depth of nested
/// blocks: its brackets are all in the shape of its blocks.
pub open spec fn bracket_free(ts: Seq<SpecToken>) -> bool
    decreases ts,
{
    if ts.len() == 0 {
        true
    } else {
        token_bracket_free(ts[0]) && bracket_free(ts.skip(1))
    }
}

/// Whether a run of tokens holds no nested block: it is flat.
pub open spec fn is_flat(ts: Seq<SpecToken>) -> bool {
    forall|i: int| 0 <= i < ts.len() ==> !(#[trigger] ts[i] is BlockToken)
}

/// The stack of open blocks after all of `ts` is appended to the innermost.
pub open spec fn append_all_to_top(stack: Seq<SpecBlock>, ts: Seq<SpecToken>) -> Seq<SpecBlock>
    recommends
        stack.len() > 0,
{
    stack.drop_last().push(
        SpecBlock { tokens: stack.last().tokens + ts, kind: stack.last().kind },
    )
}

/// Reading `a` and then `b` is reading `a + b`.
pub proof fn lemma_assemble_from_concat(
    stack: Seq<SpecBlock>,
    a: Seq<SpecToken>,
    b: Seq<SpecToken>,
)
    ensures
        assemble_from(stack, a + b) == match assemble_from(stack, a) {
            Ok(after) => assemble_from(after, b),
            Err(e) => Err(e),
        },
    decreases a.len(),
{
    if a.len() > 0 {
        assert((a + b).skip(1) =~= a.skip(1) + b);
        if let Ok(next) = assemble_step(stack, a[0]) {
            lemma_assemble_from_concat(next, a.skip(1), b);
        }
    }
}

/// Reading a single token is taking one step.
pub proof fn lemma_assemble_from_one(stack: Seq<SpecBlock>, t: SpecToken)
    ensures
        assemble_from(stack, seq![t]) == assemble_step(stack, t),
{
    reveal_with_fuel(assemble_from, 2);
}

/// Reading the flat form of a bracket-free run appends the run itself,
/// nested blocks and all, to the innermost open block.
pub proof fn lemma_assemble_from_flatten(stack: Seq<SpecBlock>, tree: Seq<SpecToken>)
    requires
        stack.len() > 0,
        bracket_free(tree),
    ensures
        assemble_from(stack, flatten(tree)) == Ok::<Seq<SpecBlock>, ParseError>(
            append_all_to_top(stack, tree),
        ),
    decreases tree,
{
    if tree.len() == 0 {
        assert(append_all_to_top(stack, tree) =~= stack);
    } else {
        let t = tree[0];
        let tail = tree.skip(1);
        let after_t = append_to_top(stack, t);
        assert(token_bracket_free(t) && bracket_free(tail));
        assert(assemble_from(stack, flatten_token(t)) == Ok::<Seq<SpecBlock>, ParseError>(after_t))
            by {
            match t {
                SpecToken::BlockToken(b) => {
                    let opened = stack.push(empty_block(b.kind));
                    let open = seq![SpecToken::OpenBlock(b.kind)];
                    let close = seq![SpecToken::CloseBlock(b.kind)];
                    let filled = append_all_to_top(opened, b.tokens);
                    lemma_assemble_from_one(stack, open[0]);
                    lemma_assemble_from_flatten(opened, b.tokens);
                    assert(filled.last() == b);
                    assert(filled.drop_last() =~= stack);
                    lemma_assemble_from_one(filled, close[0]);
                    lemma_assemble_from_concat(stack, open, flatten(b.tokens));
                    lemma_assemble_from_concat(stack, open + flatten(b.tokens), close);
                },
                _ => {
                    lemma_assemble_from_one(stack, t);
                },
            }
        }
        lemma_assemble_from_flatten(after_t, tail);
        lemma_assemble_from_concat(stack, flatten_token(t), flatten(tail));
        assert(stack.last().tokens.push(t) + tail =~= stack.last().tokens + tree);
        assert(append_all_to_top(after_t, tail) =~= append_all_to_top(stack, tree));
    }
}

/// The assembler undoes flattening: the flat form of a bracket-free run of
/// tokens assembles to the root block that holds exactly that run.
pub proof fn lemma_assemble_inverts_flatten(tree: Seq<SpecToken>)
    requires
        bracket_free(tree),
    ensures
        assemble(flatten(tree)) == Ok::<SpecBlock, ParseError>(
            SpecBlock { tokens: tree, kind: BlockKind::Code },
        ),
{
    let start = seq![empty_block(BlockKind::Code)];
    lemma_assemble_from_flatten(start, tree);
}

/// The flat text that a stack of open blocks has been read from: the
/// tokens of the root written flat, then for each block inside it the
/// bracket that opened it and its tokens written flat.
pub open spec fn stack_text(stack: Seq<SpecBlock>) -> Seq<SpecToken>
    decreases stack.len(),
{
    if stack.len() == 0 {
        Seq::empty()
    } else if stack.len() == 1 {
        flatten(stack[0].tokens)
    } else {
        stack_text(stack.drop_last()) + seq![SpecToken::OpenBlock(stack.last().kind)] + flatten(
            stack.last().tokens,
        )
    }
}

/// Whether no block of the stack holds a bracket token.
pub open spec fn stack_bracket_free(stack: Seq<SpecBlock>) -> bool {
    forall|i: int| 0 <= i < stack.len() ==> bracket_free(#[trigger] stack[i].tokens)
}

/// The flat form of a run with one more token at its end.
pub proof fn lemma_flatten_push(ts: Seq<SpecToken>, t: SpecToken)
    ensures
        flatten(ts.push(t)) == flatten(ts) + flatten_token(t),
        bracket_free(ts.push(t)) == (bracket_free(ts) && token_bracket_free(t)),
    decreases ts.len(),
{
    if ts.len() == 0 {
        let one = ts.push(t);
        assert(flatten(one.skip(1)) =~= Seq::<SpecToken>::empty());
        assert(bracket_free(one.skip(1)));
    } else {
        assert(ts.push(t).skip(1) =~= ts.skip(1).push(t));
        lemma_flatten_push(ts.skip(1), t);
    }
}

/// Appending a token to the innermost open block appends its flat form to
/// the text that the stack has been read from.
pub proof fn lemma_stack_text_append(stack: Seq<SpecBlock>, t: SpecToken)
    requires
        stack.len() > 0,
    ensures
        stack_text(append_to_top(stack, t)) == stack_text(stack) + flatten_token(
            t,
        ),
{
    let after = append_to_top(stack, t);
    lemma_flatten_push(stack.last().tokens, t);
    if stack.len() > 1 {
        assert(after.drop_last() =~= stack.drop_last());
    }
}

/// One step of the assembler on a token that is no nested block reads
/// that token: the text of the stack grows by it, and no block comes to
/// hold a bracket token.
pub proof fn lemma_step_reads_token(stack: Seq<SpecBlock>, t: SpecToken)
    requires
        stack.len() > 0,
        !(t is BlockToken),
        stack_bracket_free(stack),
    ensures
        assemble_step(stack, t) matches Ok(next) ==> {
            &&& next.len() > 0
            &&& stack_bracket_free(next)
            &&& stack_text(next) == stack_text(stack) + seq![t]
        },
{
    if let Ok(next) = assemble_step(stack, t) {
        match t {
            SpecToken::OpenBlock(kind) => {
                assert(next.drop_last() =~= stack);
            },
            SpecToken::CloseBlock(kind) => {
                let closed = stack.last();
                let base = stack.drop_last();
                let node = SpecToken::BlockToken(closed);
                lemma_stack_text_append(base, node);
                lemma_flatten_push(base.last().tokens, node);
            },
            _ => {
                lemma_stack_text_append(stack, t);
                lemma_flatten_push(stack.last().tokens, t);
            },
        }
    }
}

/// Whatever flat input the assembler reads without error is the text of
/// the stack it ends with.
pub proof fn lemma_assemble_from_reads(stack: Seq<SpecBlock>, ts: Seq<SpecToken>)
    requires
        stack.len() > 0,
        is_flat(ts),
        stack_bracket_free(stack),
    ensures
        assemble_from(stack, ts) matches Ok(after) ==> {
            &&& after.len() > 0
            &&& stack_bracket_free(after)
            &&& stack_text(after) == stack_text(stack) + ts
        },
    decreases ts.len(),
{
    if ts.len() > 0 {
        lemma_step_reads_token(stack, ts[0]);
        if let Ok(next) = assemble_step(stack, ts[0]) {
            lemma_assemble_from_reads(next, ts.skip(1));
        }
    }
}

/// What the assembler accepts is the flat form of what it yields: for
/// input without nested blocks, the root it builds holds no bracket token
/// at any depth, and written flat it is the input again.
pub proof fn lemma_assembled_flattens_back(ts: Seq<SpecToken>)
    requires
        is_flat(ts),
    ensures
        assemble(ts) matches Ok(root) ==> bracket_free(root.tokens) && flatten(root.tokens) == ts,
{
    let start = seq![empty_block(BlockKind::Code)];
    lemma_assemble_from_reads(start, ts);
}

/// The tokens of any run of lexemes are flat, so what the assembler
/// builds of them is their tree: written flat, it is those tokens again.
pub proof fn lemma_assembled_lexemes_flatten_back(lexemes: Seq<Seq<char>>)
    ensures
        is_flat(classify_all(lexemes)),
        assemble(classify_all(lexemes)) matches Ok(root) ==> bracket_free(root.tokens) && flatten(
            root.tokens,
        ) == classify_all(lexemes),
{
    lemma_classified_are_atoms(lexemes);
    lemma_assembled_flattens_back(classify_all(lexemes));
}

} // verus!

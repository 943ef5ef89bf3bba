//! The block assembler: a flat run of tokens to a tree of nested blocks.

use vstd::prelude::*;
use crate::error::ParseError;
use crate::nesting::{well_nested, lemma_assemble_accepts_well_nested};
use crate::order::reversed;
use crate::token::{
    Block, BlockKind, SpecBlock, SpecToken, Token, block_outcome, blocks_view, tokens_view,
    lemma_tokens_view_push,
};

verus! {

/// A block of the given kind that holds nothing yet.
pub open spec fn empty_block(kind: BlockKind) -> SpecBlock {
    SpecBlock { tokens: Seq::empty(), kind }
}

/// The stack of open blocks after `t` is appended to the innermost one.
pub open spec fn append_to_top(stack: Seq<SpecBlock>, t: SpecToken) -> Seq<SpecBlock>
    recommends
        stack.len() > 0,
{
    stack.drop_last().push(
        SpecBlock { tokens: stack.last().tokens.push(t), kind: stack.last().kind },
    )
}

/// What one token does to the stack of open blocks, outermost first.
///
/// An opening bracket opens a new innermost block. A closing bracket must
/// have the kind of the innermost block, and that block must have one
/// around it, to which it is appended as a single token. Any other token
/// is appended to the innermost block.
pub open spec fn assemble_step(stack: Seq<SpecBlock>, t: SpecToken) -> Result<
    Seq<SpecBlock>,
    ParseError,
> {
    match t {
        SpecToken::OpenBlock(kind) => Ok(stack.push(empty_block(kind))),
        SpecToken::CloseBlock(kind) => {
            if stack.len() == 0 {
                Err(ParseError::UnbalancedBrackets)
            } else if stack.last().kind != kind {
                Err(ParseError::MismatchedBracket)
            } else if stack.len() == 1 {
                Err(ParseError::UnbalancedBrackets)
            } else {
                Ok(append_to_top(stack.drop_last(), SpecToken::BlockToken(stack.last())))
            }
        },
        _ => {
            if stack.len() == 0 {
                Err(ParseError::UnbalancedBrackets)
            } else {
                Ok(append_to_top(stack, t))
            }
        },
    }
}

/// The stack of open blocks after all of `ts` is read, or the first error.
pub open spec fn assemble_from(stack: Seq<SpecBlock>, ts: Seq<SpecToken>) -> Result<
    Seq<SpecBlock>,
    ParseError,
>
    decreases ts.len(),
{
    if ts.len() == 0 {
        Ok(stack)
    } else {
        match assemble_step(stack, ts[0]) {
            Err(e) => Err(e),
            Ok(next) => assemble_from(next, ts.skip(1)),
        }
    }
}

/// The blocks that are open after `ts` is read, starting from an empty
/// root block of kind `Code`; the root comes first.
pub open spec fn open_blocks(ts: Seq<SpecToken>) -> Result<Seq<SpecBlock>, ParseError> {
    assemble_from(seq![empty_block(BlockKind::Code)], ts)
}

/// The root block that `ts` assembles to. Input that leaves a block open
/// beside the root is unbalanced.
pub open spec fn assemble(ts: Seq<SpecToken>) -> Result<SpecBlock, ParseError> {
    match open_blocks(ts) {
        Err(e) => Err(e),
        Ok(stack) => if stack.len() == 1 {
            Ok(stack[0])
        } else {
            Err(ParseError::UnbalancedBrackets)
        },
    }
}

/// The model of a stack of open blocks, or of the error in its place.
pub open spec fn stack_outcome(r: Result<Vec<Block>, ParseError>) -> Result<
    Seq<SpecBlock>,
    ParseError,
> {
    match r {
        Ok(blocks) => Ok(blocks_view(blocks@)),
        Err(e) => Err(e),
    }
}

/// Appends a token to the innermost open block.
fn push_to_top(blocks: &mut Vec<Block>, token: Token)
    requires
        old(blocks).len() > 0,
    ensures
        blocks_view(final(blocks)@) == append_to_top(blocks_view(old(blocks)@), token@),
{
    let mut top = blocks.pop().unwrap();
    proof {
        lemma_tokens_view_push(top.tokens@, token);
    }
    top.tokens.push(token);
    blocks.push(top);
}

/// Reads the tokens left to right through the stack of open blocks and
/// hands back the stack as it stands at the end, the root first.
pub fn stack_blocks(tokens: Vec<Token>) -> (r: Result<Vec<Block>, ParseError>)
    ensures
        stack_outcome(r) == open_blocks(tokens_view(tokens@)),
{
    let ghost all = tokens@;
    let ghost tv = tokens_view(all);
    let mut rest = reversed(tokens);
    let mut blocks: Vec<Block> = Vec::new();
    blocks.push(Block::new(BlockKind::Code));
    let ghost mut done: int = 0;
    assert(tv.skip(0) =~= tv);
    assert(blocks_view(blocks@) =~= seq![empty_block(BlockKind::Code)]);
    while rest.len() > 0
        invariant
            all == tokens@,
            tv == tokens_view(all),
            0 <= done <= all.len(),
            rest.len() == all.len() - done,
            forall|j: int| 0 <= j < rest.len() ==> rest@[j] == all[all.len() - 1 - j],
            open_blocks(tv) == assemble_from(blocks_view(blocks@), tv.skip(done)),
        decreases rest.len(),
    {
        let ghost cur = tv.skip(done);
        let ghost stack = blocks_view(blocks@);
        let token = rest.pop().unwrap();
        assert(cur.skip(1) =~= tv.skip(done + 1));
        match token {
            Token::OpenBlock(kind) => {
                blocks.push(Block::new(kind));
                assert(blocks_view(blocks@) =~= stack.push(empty_block(kind)));
            },
            Token::CloseBlock(kind) => {
                let closed = match blocks.pop() {
                    Some(b) => b,
                    None => {
                        return Err(ParseError::UnbalancedBrackets);
                    },
                };
                if closed.kind != kind {
                    return Err(ParseError::MismatchedBracket);
                }
                if blocks.len() == 0 {
                    return Err(ParseError::UnbalancedBrackets);
                }
                assert(blocks_view(blocks@) =~= stack.drop_last());
                push_to_top(&mut blocks, Token::BlockToken(closed));
            },
            other => {
                if blocks.len() == 0 {
                    return Err(ParseError::UnbalancedBrackets);
                }
                push_to_top(&mut blocks, other);
            },
        }
        proof {
            done = done + 1;
        }
    }
    Ok(blocks)
}

/// Assembles a flat run of tokens into its root block, of kind `Code`:
/// what stands between `{` and `}` becomes a nested code block, what stands
/// between `(` and `)` a nested data block.
pub fn parse_blocks(tokens: Vec<Token>) -> (r: Result<Block, ParseError>)
    ensures
        block_outcome(r) == assemble(tokens_view(tokens@)),
        r is Ok <==> well_nested(tokens_view(tokens@)),
        r matches Ok(root) ==> root@.kind == BlockKind::Code,
        r matches Err(e) ==> e == ParseError::MismatchedBracket || e
            == ParseError::UnbalancedBrackets,
{
    proof {
        lemma_assemble_accepts_well_nested(tokens_view(tokens@));
    }
    let mut blocks = match stack_blocks(tokens) {
        Ok(blocks) => blocks,
        Err(e) => {
            return Err(e);
        },
    };
    if blocks.len() != 1 {
        return Err(ParseError::UnbalancedBrackets);
    }
    let root = blocks.pop().unwrap();
    Ok(root)
}

} // verus!

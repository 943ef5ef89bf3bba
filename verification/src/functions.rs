//! The function lifter: a function marker, a data block and a code block
//! become one function node.

use vstd::prelude::*;
use crate::error::ParseError;
use crate::order::reversed;
use crate::token::{
    Block, BlockKind, SpecBlock, SpecToken, Token, block_outcome, followed_by,
    tokens_view, lemma_followed_by_twice, lemma_tokens_view_push,
};

verus! {

/// The block that a token wraps, where it wraps one of the given kind.
pub open spec fn block_of_kind(t: SpecToken, kind: BlockKind) -> Option<SpecBlock> {
    match t {
        SpecToken::BlockToken(b) => if b.kind == kind {
            Some(b)
        } else {
            None
        },
        _ => None,
    }
}

/// The tokens of a block with its function declarations lifted, read left
/// to right.
///
/// A function marker must be followed by a data block and then by a code
/// block. The three become one function, whose body has its own
/// declarations lifted. Every other token is kept as it is; a block that
/// belongs to no declaration is not looked into.
pub open spec fn lift_functions_in(ts: Seq<SpecToken>) -> Result<Seq<SpecToken>, ParseError>
    decreases ts,
{
    if ts.len() == 0 {
        Ok(Seq::empty())
    } else if ts[0] is StartFunction {
        if ts.len() < 2 {
            Err(ParseError::MissingFunctionDataBlock)
        } else {
            match block_of_kind(ts[1], BlockKind::Data) {
                None => Err(ParseError::MissingFunctionDataBlock),
                Some(data) => {
                    if ts.len() < 3 {
                        Err(ParseError::MissingFunctionCodeBlock)
                    } else {
                        match block_of_kind(ts[2], BlockKind::Code) {
                            None => Err(ParseError::MissingFunctionCodeBlock),
                            Some(body) => match lift_functions(body) {
                                Err(e) => Err(e),
                                Ok(code) => followed_by(
                                    seq![SpecToken::Function { data, code }],
                                    lift_functions_in(ts.skip(3)),
                                ),
                            },
                        }
                    }
                },
            }
        }
    } else {
        followed_by(seq![ts[0]], lift_functions_in(ts.skip(1)))
    }
}

/// A block of the same kind with its function declarations lifted, or the
/// first error met.
pub open spec fn lift_functions(b: SpecBlock) -> Result<SpecBlock, ParseError>
    decreases b,
{
    match lift_functions_in(b.tokens) {
        Ok(tokens) => Ok(SpecBlock { tokens, kind: b.kind }),
        Err(e) => Err(e),
    }
}

/// Lifts the function declarations that stand directly in a block, and
/// those in the bodies of the functions so found.
pub fn parse_functions(block: Block) -> (r: Result<Block, ParseError>)
    ensures
        block_outcome(r) == lift_functions(block@),
        r matches Ok(lifted) ==> lifted@.kind == block@.kind,
    decreases block,
{
    let ghost all = block.tokens@;
    let ghost tv = tokens_view(all);
    let Block { tokens, kind } = block;
    let mut rest = reversed(tokens);
    let mut out: Vec<Token> = Vec::new();
    let ghost mut done: int = 0;
    assert(tv.skip(0) =~= tv);
    while rest.len() > 0
        invariant
            all == block.tokens@,
            tv == tokens_view(all),
            0 <= done <= all.len(),
            rest.len() == all.len() - done,
            forall|j: int| 0 <= j < rest.len() ==> rest@[j] == all[all.len() - 1 - j],
            lift_functions_in(tv) == followed_by(
                tokens_view(out@),
                lift_functions_in(tv.skip(done)),
            ),
        decreases rest.len(),
    {
        let ghost cur = tv.skip(done);
        let ghost before = tokens_view(out@);
        let token = rest.pop().unwrap();
        let node = match token {
            Token::StartFunction => {
                let data = match rest.pop() {
                    Some(Token::BlockToken(b)) => {
                        match b.kind {
                            BlockKind::Data => b,
                            BlockKind::Code => {
                                return Err(ParseError::MissingFunctionDataBlock);
                            },
                        }
                    },
                    _ => {
                        return Err(ParseError::MissingFunctionDataBlock);
                    },
                };
                let body = match rest.pop() {
                    Some(Token::BlockToken(b)) => {
                        match b.kind {
                            BlockKind::Code => b,
                            BlockKind::Data => {
                                return Err(ParseError::MissingFunctionCodeBlock);
                            },
                        }
                    },
                    _ => {
                        return Err(ParseError::MissingFunctionCodeBlock);
                    },
                };
                let code = match parse_functions(body) {
                    Ok(code) => code,
                    Err(e) => {
                        return Err(e);
                    },
                };
                proof {
                    assert(cur.skip(3) =~= tv.skip(done + 3));
                    done = done + 3;
                }
                Token::Function { data, code }
            },
            other => {
                proof {
                    assert(cur.skip(1) =~= tv.skip(done + 1));
                    done = done + 1;
                }
                other
            },
        };
        proof {
            lemma_tokens_view_push(out@, node);
            lemma_followed_by_twice(before, seq![node@], lift_functions_in(tv.skip(done)));
            assert(before.push(node@) =~= before + seq![node@]);
        }
        out.push(node);
    }
    Ok(Block { tokens: out, kind })
}

/// A function marker, a data block and a code block, followed by anything,
/// lift to one function whose body has its own declarations lifted, followed
/// by what the rest lifts to. A body that cannot be lifted fails the whole.
pub proof fn lemma_declaration_lifts(data: SpecBlock, body: SpecBlock, rest: Seq<SpecToken>)
    requires
        data.kind == BlockKind::Data,
        body.kind == BlockKind::Code,
    ensures
        lift_functions_in(
            seq![SpecToken::StartFunction, SpecToken::BlockToken(data), SpecToken::BlockToken(body)]
                + rest,
        ) == match lift_functions(body) {
            Ok(code) => followed_by(
                seq![SpecToken::Function { data, code }],
                lift_functions_in(rest),
            ),
            Err(e) => Err(e),
        },
{
    let ts = seq![
        SpecToken::StartFunction,
        SpecToken::BlockToken(data),
        SpecToken::BlockToken(body),
    ] + rest;
    assert(ts.skip(3) =~= rest);
}

/// Tokens among which no function marker stands are all kept as they are.
pub proof fn lemma_no_marker_no_change(ts: Seq<SpecToken>)
    requires
        forall|i: int| 0 <= i < ts.len() ==> !(#[trigger] ts[i] is StartFunction),
    ensures
        lift_functions_in(ts) == Ok::<Seq<SpecToken>, ParseError>(ts),
    decreases ts.len(),
{
    if ts.len() > 0 {
        lemma_no_marker_no_change(ts.skip(1));
        assert(seq![ts[0]] + ts.skip(1) =~= ts);
    } else {
        assert(ts =~= Seq::<SpecToken>::empty());
    }
}

/// After lifting, no function marker is left among the tokens of the
/// block: each has become a function.
pub proof fn lemma_markers_are_lifted(ts: Seq<SpecToken>)
    ensures
        lift_functions_in(ts) matches Ok(out) ==> forall|i: int|
            0 <= i < out.len() ==> !(#[trigger] out[i] is StartFunction),
    decreases ts.len(),
{
    if ts.len() > 0 {
        if ts[0] is StartFunction {
            if ts.len() >= 3 {
                lemma_markers_are_lifted(ts.skip(3));
            }
        } else {
            lemma_markers_are_lifted(ts.skip(1));
        }
    }
}

} // verus!

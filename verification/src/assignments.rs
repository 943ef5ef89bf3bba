//! The assignment lifter: a name, the assignment marker and the token after
//! it become one assignment node.

use vstd::prelude::*;
use crate::error::ParseError;
use crate::order::reversed;
use crate::token::{
    Block, SpecBlock, SpecToken, Token, block_outcome, followed_by, tokens_view,
    lemma_followed_by_twice, lemma_tokens_view_push,
};

verus! {

/// What an assignment stores for the token right of the marker: a function
/// has the assignments of its body lifted first, any other token is stored
/// as it is.
pub open spec fn assigned_value(t: SpecToken) -> Result<SpecToken, ParseError>
    decreases t,
{
    match t {
        SpecToken::Function { data, code } => match lift_assignments(code) {
            Ok(lifted) => Ok(SpecToken::Function { data, code: lifted }),
            Err(e) => Err(e),
        },
        _ => Ok(t),
    }
}

/// The tokens of a block with its assignments lifted, read left to right.
///
/// A name looks one token ahead. Before the assignment marker it takes the
/// token after the marker as its value and the three become one assignment.
/// Before any other token, the name and that token are both kept as they
/// are, and reading goes on after them. A nested block has its own
/// assignments lifted. Every other token is kept.
pub open spec fn lift_assignments_in(ts: Seq<SpecToken>) -> Result<Seq<SpecToken>, ParseError>
    decreases ts,
{
    if ts.len() == 0 {
        Ok(Seq::empty())
    } else {
        match ts[0] {
            SpecToken::Name(_) => {
                if ts.len() < 2 {
                    Err(ParseError::NameAtEndOfBlock)
                } else if ts[1] is Assign {
                    if ts.len() < 3 {
                        Err(ParseError::InvalidAssignmentMissingValue)
                    } else {
                        match assigned_value(ts[2]) {
                            Err(e) => Err(e),
                            Ok(to) => followed_by(
                                seq![
                                    SpecToken::Assignment {
                                        set: Box::new(ts[0]),
                                        to: Box::new(to),
                                    },
                                ],
                                lift_assignments_in(ts.skip(3)),
                            ),
                        }
                    }
                } else {
                    followed_by(seq![ts[0], ts[1]], lift_assignments_in(ts.skip(2)))
                }
            },
            SpecToken::BlockToken(b) => match lift_assignments(b) {
                Err(e) => Err(e),
                Ok(lifted) => followed_by(
                    seq![SpecToken::BlockToken(lifted)],
                    lift_assignments_in(ts.skip(1)),
                ),
            },
            _ => followed_by(seq![ts[0]], lift_assignments_in(ts.skip(1))),
        }
    }
}

/// A block of the same kind with its assignments lifted, or the first error
/// met.
pub open spec fn lift_assignments(b: SpecBlock) -> Result<SpecBlock, ParseError>
    decreases b,
{
    match lift_assignments_in(b.tokens) {
        Ok(tokens) => Ok(SpecBlock { tokens, kind: b.kind }),
        Err(e) => Err(e),
    }
}

/// Lifts the assignments of a block, of the blocks nested in it, and of
/// the bodies of the functions it assigns.
pub fn parse_assignments(block: Block) -> (r: Result<Block, ParseError>)
    ensures
        block_outcome(r) == lift_assignments(block@),
        r matches Ok(lifted) ==> lifted@.kind == block@.kind,
    decreases block,
{
    let ghost all = block.tokens@;
    let ghost tv = tokens_view(all);
    let Block { tokens, kind } = block;
    let mut rest = reversed(tokens);
    let mut out: Vec<Token> = Vec::new();
    let ghost mut done: int = 0;
    assert(tv.skip(0) =~= tv);
    while rest.len() > 0
        invariant
            all == block.tokens@,
            tv == tokens_view(all),
            0 <= done <= all.len(),
            rest.len() == all.len() - done,
            forall|j: int| 0 <= j < rest.len() ==> rest@[j] == all[all.len() - 1 - j],
            lift_assignments_in(tv) == followed_by(
                tokens_view(out@),
                lift_assignments_in(tv.skip(done)),
            ),
        decreases rest.len(),
    {
        let ghost cur = tv.skip(done);
        let ghost before = tokens_view(out@);
        let token = rest.pop().unwrap();
        match token {
            Token::Name(name) => {
                match rest.pop() {
                    None => {
                        return Err(ParseError::NameAtEndOfBlock);
                    },
                    Some(Token::Assign) => {
                        match rest.pop() {
                            None => {
                                return Err(ParseError::InvalidAssignmentMissingValue);
                            },
                            Some(value) => {
                                let to = match value {
                                    Token::Function { data, code } => {
                                        match parse_assignments(code) {
                                            Ok(lifted) => Token::Function { data, code: lifted },
                                            Err(e) => {
                                                return Err(e);
                                            },
                                        }
                                    },
                                    other => other,
                                };
                                let node = Token::Assignment {
                                    set: Box::new(Token::Name(name)),
                                    to: Box::new(to),
                                };
                                proof {
                                    assert(assigned_value(cur[2]) == Ok::<SpecToken, ParseError>(
                                        to@,
                                    ));
                                    assert(cur.skip(3) =~= tv.skip(done + 3));
                                    lemma_tokens_view_push(out@, node);
                                    lemma_followed_by_twice(
                                        before,
                                        seq![node@],
                                        lift_assignments_in(tv.skip(done + 3)),
                                    );
                                    assert(before.push(node@) =~= before + seq![node@]);
                                    done = done + 3;
                                }
                                out.push(node);
                            },
                        }
                    },
                    Some(next) => {
                        let first = Token::Name(name);
                        proof {
                            assert(cur.skip(2) =~= tv.skip(done + 2));
                            lemma_tokens_view_push(out@, first);
                            lemma_tokens_view_push(out@.push(first), next);
                            lemma_followed_by_twice(
                                before,
                                seq![first@, next@],
                                lift_assignments_in(tv.skip(done + 2)),
                            );
                            assert(before.push(first@).push(next@) =~= before + seq![
                                first@,
                                next@,
                            ]);
                            done = done + 2;
                        }
                        out.push(first);
                        out.push(next);
                    },
                }
            },
            Token::BlockToken(inner) => {
                match parse_assignments(inner) {
                    Err(e) => {
                        return Err(e);
                    },
                    Ok(lifted) => {
                        let node = Token::BlockToken(lifted);
                        proof {
                            assert(cur.skip(1) =~= tv.skip(done + 1));
                            lemma_tokens_view_push(out@, node);
                            lemma_followed_by_twice(
                                before,
                                seq![node@],
                                lift_assignments_in(tv.skip(done + 1)),
                            );
                            assert(before.push(node@) =~= before + seq![node@]);
                            done = done + 1;
                        }
                        out.push(node);
                    },
                }
            },
            other => {
                proof {
                    assert(cur.skip(1) =~= tv.skip(done + 1));
                    lemma_tokens_view_push(out@, other);
                    lemma_followed_by_twice(
                        before,
                        seq![other@],
                        lift_assignments_in(tv.skip(done + 1)),
                    );
                    assert(before.push(other@) =~= before + seq![other@]);
                    done = done + 1;
                }
                out.push(other);
            },
        }
    }
    Ok(Block { tokens: out, kind })
}

/// A name, the assignment marker and a function, followed by anything,
/// lift to one assignment of the function with the assignments of its body
/// lifted, followed by what the rest lifts to. A body that cannot be lifted
/// fails the whole.
pub proof fn lemma_assigned_function_is_lifted(
    name: Seq<char>,
    data: SpecBlock,
    code: SpecBlock,
    rest: Seq<SpecToken>,
)
    ensures
        lift_assignments_in(
            seq![
                SpecToken::Name(name),
                SpecToken::Assign,
                SpecToken::Function { data, code },
            ] + rest,
        ) == match lift_assignments(code) {
            Ok(lifted) => followed_by(
                seq![
                    SpecToken::Assignment {
                        set: Box::new(SpecToken::Name(name)),
                        to: Box::new(SpecToken::Function { data, code: lifted }),
                    },
                ],
                lift_assignments_in(rest),
            ),
            Err(e) => Err(e),
        },
{
    let ts = seq![SpecToken::Name(name), SpecToken::Assign, SpecToken::Function { data, code }]
        + rest;
    assert(ts.skip(3) =~= rest);
    assert(assigned_value(ts[2]) == match lift_assignments(code) {
        Ok(lifted) => Ok::<SpecToken, ParseError>(SpecToken::Function { data, code: lifted }),
        Err(e) => Err(e),
    });
}

/// A name before a token that is not the assignment marker is kept, and so
/// is that token, in this order; no assignment is made of them, and lifting
/// goes on with what follows the two.
pub proof fn lemma_name_before_other_token(ts: Seq<SpecToken>)
    requires
        ts.len() >= 2,
        ts[0] is Name,
        !(ts[1] is Assign),
    ensures
        lift_assignments_in(ts) == followed_by(seq![ts[0], ts[1]], lift_assignments_in(ts.skip(2))),
{
}

/// Two names in a row, and nothing else, stay two names.
pub proof fn lemma_two_names_pass(a: Seq<char>, b: Seq<char>)
    ensures
        lift_assignments_in(seq![SpecToken::Name(a), SpecToken::Name(b)]) == Ok::<
            Seq<SpecToken>,
            ParseError,
        >(seq![SpecToken::Name(a), SpecToken::Name(b)]),
{
    let ts = seq![SpecToken::Name(a), SpecToken::Name(b)];
    lemma_name_before_other_token(ts);
}

} // verus!

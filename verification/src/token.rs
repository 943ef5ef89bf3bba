//! The syntax tree and its mathematical model.

use vstd::prelude::*;
use crate::error::ParseError;

verus! {

/// Which bracket pair delimits a block: `{}` for `Code`, `()` for `Data`.
#[derive(Debug, Clone, Copy, PartialEq, Eq, Structural)]
pub enum BlockKind {
    Code,
    Data,
}

/// One nesting level: an ordered run of tokens and the kind of its brackets.
#[derive(Debug, PartialEq)]
pub struct Block {
    pub tokens: Vec<Token>,
    pub kind: BlockKind,
}

/// One lexical or structural unit.
#[derive(Debug, PartialEq)]
pub enum Token {
    /// A bare identifier.
    Name(String),
    /// A quoted literal, stored with its quotes.
    Value(String),
    /// The keyword that starts a function declaration.
    StartFunction,
    /// The assignment marker `:=`.
    Assign,
    /// The statement terminator `;`. No stage gives it a structural
    /// meaning: it stays where it stands.
    End,
    /// What the empty lexeme stands for. The classifier drops it, so later
    /// stages meet none.
    Blank,
    /// An opening bracket, before the assembler has paired it.
    OpenBlock(BlockKind),
    /// A closing bracket, before the assembler has paired it.
    CloseBlock(BlockKind),
    /// A nested block, built by the assembler.
    BlockToken(Block),
    /// A function declaration: `data` is its data block, `code` its body.
    Function { data: Block, code: Block },
    /// An assignment of `to` to the name `set`.
    Assignment { set: Box<Token>, to: Box<Token> },
}

/// The model of a [`Block`]: its tokens as a sequence of token models.
pub struct SpecBlock {
    pub tokens: Seq<SpecToken>,
    pub kind: BlockKind,
}

/// The model of a [`Token`]: strings are sequences of characters, blocks
/// are block models.
pub enum SpecToken {
    Name(Seq<char>),
    Value(Seq<char>),
    StartFunction,
    Assign,
    End,
    Blank,
    OpenBlock(BlockKind),
    CloseBlock(BlockKind),
    BlockToken(SpecBlock),
    Function { data: SpecBlock, code: SpecBlock },
    Assignment { set: Box<SpecToken>, to: Box<SpecToken> },
}

/// The model of a token.
pub open spec fn token_view(t: Token) -> SpecToken
    decreases t,
{
    match t {
        Token::Name(s) => SpecToken::Name(s@),
        Token::Value(s) => SpecToken::Value(s@),
        Token::StartFunction => SpecToken::StartFunction,
        Token::Assign => SpecToken::Assign,
        Token::End => SpecToken::End,
        Token::Blank => SpecToken::Blank,
        Token::OpenBlock(k) => SpecToken::OpenBlock(k),
        Token::CloseBlock(k) => SpecToken::CloseBlock(k),
        Token::BlockToken(b) => SpecToken::BlockToken(block_view(b)),
        Token::Function { data, code } => SpecToken::Function {
            data: block_view(data),
            code: block_view(code),
        },
        Token::Assignment { set, to } => SpecToken::Assignment {
            set: Box::new(token_view(*set)),
            to: Box::new(token_view(*to)),
        },
    }
}

/// The model of a block.
pub open spec fn block_view(b: Block) -> SpecBlock
    decreases b,
{
    SpecBlock { tokens: tokens_view(b.tokens@), kind: b.kind }
}

/// The models of a run of tokens, in order.
pub open spec fn tokens_view(ts: Seq<Token>) -> Seq<SpecToken>
    decreases ts,
{
    Seq::new(
        ts.len(),
        |i: int|
            if 0 <= i < ts.len() {
                token_view(ts[i])
            } else {
                SpecToken::Blank
            },
    )
}

impl View for Token {
    type V = SpecToken;

    open spec fn view(&self) -> SpecToken {
        token_view(*self)
    }
}

impl View for Block {
    type V = SpecBlock;

    open spec fn view(&self) -> SpecBlock {
        block_view(*self)
    }
}

impl Block {
    /// A block of the given kind that holds nothing yet.
    pub fn new(kind: BlockKind) -> (b: Block)
        ensures
            b@ == (SpecBlock { tokens: Seq::empty(), kind }),
    {
        let b = Block { tokens: Vec::new(), kind };
        assert(b@.tokens =~= Seq::empty());
        b
    }

    /// An empty code block.
    pub fn new_code() -> (b: Block)
        ensures
            b@ == (SpecBlock { tokens: Seq::empty(), kind: BlockKind::Code }),
    {
        Block::new(BlockKind::Code)
    }

    /// An empty data block.
    pub fn new_data() -> (b: Block)
        ensures
            b@ == (SpecBlock { tokens: Seq::empty(), kind: BlockKind::Data }),
    {
        Block::new(BlockKind::Data)
    }
}

/// The models of a run of blocks, in order.
pub open spec fn blocks_view(bs: Seq<Block>) -> Seq<SpecBlock> {
    Seq::new(bs.len(), |i: int| bs[i]@)
}

/// The model of a stage's outcome: the block it built, or why it gave up.
pub open spec fn block_outcome(r: Result<Block, ParseError>) -> Result<SpecBlock, ParseError> {
    match r {
        Ok(b) => Ok(b@),
        Err(e) => Err(e),
    }
}

/// `head` followed by what `rest` holds, or the error that `rest` is.
pub open spec fn followed_by(
    head: Seq<SpecToken>,
    rest: Result<Seq<SpecToken>, ParseError>,
) -> Result<Seq<SpecToken>, ParseError> {
    match rest {
        Ok(tail) => Ok(head + tail),
        Err(e) => Err(e),
    }
}

/// Putting `a` and then `b` before an outcome is putting `a + b` before it.
pub proof fn lemma_followed_by_twice(
    a: Seq<SpecToken>,
    b: Seq<SpecToken>,
    rest: Result<Seq<SpecToken>, ParseError>,
)
    ensures
        followed_by(a, followed_by(b, rest)) == followed_by(a + b, rest),
{
    if let Ok(tail) = rest {
        assert(a + (b + tail) =~= (a + b) + tail);
    }
}

/// The model of a run with one more token at its end.
pub proof fn lemma_tokens_view_push(ts: Seq<Token>, t: Token)
    ensures
        tokens_view(ts.push(t)) == tokens_view(ts).push(t@),
{
}

} // verus!

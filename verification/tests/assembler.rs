use block_lexer::{parse_blocks, stack_blocks, Block, BlockKind, ParseError, Token};

fn name(s: &str) -> Token {
    Token::Name(s.to_string())
}

fn open(kind: BlockKind) -> Token {
    Token::OpenBlock(kind)
}

fn close(kind: BlockKind) -> Token {
    Token::CloseBlock(kind)
}

fn code(tokens: Vec<Token>) -> Block {
    Block { tokens, kind: BlockKind::Code }
}

fn data(tokens: Vec<Token>) -> Block {
    Block { tokens, kind: BlockKind::Data }
}

#[test]
fn new_blocks_are_empty() {
    assert_eq!(Block::new(BlockKind::Data), data(vec![]));
    assert_eq!(Block::new(BlockKind::Code), code(vec![]));
    assert_eq!(Block::new_code(), code(vec![]));
    assert_eq!(Block::new_data(), data(vec![]));
}

#[test]
fn no_tokens_give_an_empty_root() {
    assert_eq!(parse_blocks(vec![]), Ok(code(vec![])));
}

#[test]
fn tokens_without_brackets_stay_in_the_root() {
    let tokens = vec![name("x"), Token::Assign, Token::Value("\"hi\"".to_string()), Token::End];
    let expected = vec![name("x"), Token::Assign, Token::Value("\"hi\"".to_string()), Token::End];
    assert_eq!(parse_blocks(tokens), Ok(code(expected)));
}

#[test]
fn well_nested_brackets_give_one_root() {
    // a { b ( c ) { } } ( )
    let tokens = vec![
        name("a"),
        open(BlockKind::Code),
        name("b"),
        open(BlockKind::Data),
        name("c"),
        close(BlockKind::Data),
        open(BlockKind::Code),
        close(BlockKind::Code),
        close(BlockKind::Code),
        open(BlockKind::Data),
        close(BlockKind::Data),
    ];
    let expected = code(vec![
        name("a"),
        Token::BlockToken(code(vec![
            name("b"),
            Token::BlockToken(data(vec![name("c")])),
            Token::BlockToken(code(vec![])),
        ])),
        Token::BlockToken(data(vec![])),
    ]);
    assert_eq!(parse_blocks(tokens), Ok(expected));
}

#[test]
fn deep_nesting_is_assembled() {
    let depth = 200;
    let mut tokens = Vec::new();
    for _ in 0..depth {
        tokens.push(open(BlockKind::Data));
    }
    for _ in 0..depth {
        tokens.push(close(BlockKind::Data));
    }
    let mut expected = data(vec![]);
    for _ in 1..depth {
        expected = data(vec![Token::BlockToken(expected)]);
    }
    assert_eq!(parse_blocks(tokens), Ok(code(vec![Token::BlockToken(expected)])));
}

#[test]
fn crossed_brackets_are_mismatched() {
    // { ( } )
    let tokens = vec![
        open(BlockKind::Code),
        open(BlockKind::Data),
        close(BlockKind::Code),
        close(BlockKind::Data),
    ];
    assert_eq!(parse_blocks(tokens), Err(ParseError::MismatchedBracket));
}

#[test]
fn close_without_open_is_unbalanced() {
    assert_eq!(parse_blocks(vec![close(BlockKind::Code)]), Err(ParseError::UnbalancedBrackets));
    let tokens = vec![open(BlockKind::Code), close(BlockKind::Code), close(BlockKind::Code)];
    assert_eq!(parse_blocks(tokens), Err(ParseError::UnbalancedBrackets));
}

#[test]
fn close_of_the_other_kind_against_the_root_is_mismatched() {
    assert_eq!(parse_blocks(vec![close(BlockKind::Data)]), Err(ParseError::MismatchedBracket));
}

#[test]
fn block_left_open_is_unbalanced() {
    assert_eq!(parse_blocks(vec![open(BlockKind::Code)]), Err(ParseError::UnbalancedBrackets));
    let tokens = vec![open(BlockKind::Data), name("x"), open(BlockKind::Code), close(BlockKind::Code)];
    assert_eq!(parse_blocks(tokens), Err(ParseError::UnbalancedBrackets));
}

#[test]
fn first_bracket_error_wins() {
    // ) comes before the block that is left open
    let tokens = vec![open(BlockKind::Code), close(BlockKind::Data), open(BlockKind::Code)];
    assert_eq!(parse_blocks(tokens), Err(ParseError::MismatchedBracket));
}

#[test]
fn blank_and_ready_made_tokens_are_appended_like_any_other() {
    let tokens = vec![Token::Blank, Token::BlockToken(data(vec![open(BlockKind::Code)]))];
    let expected = vec![Token::Blank, Token::BlockToken(data(vec![open(BlockKind::Code)]))];
    assert_eq!(parse_blocks(tokens), Ok(code(expected)));
}

#[test]
fn stack_holds_the_blocks_still_open() {
    // a { b (
    let tokens = vec![name("a"), open(BlockKind::Code), name("b"), open(BlockKind::Data)];
    assert_eq!(
        stack_blocks(tokens),
        Ok(vec![code(vec![name("a")]), code(vec![name("b")]), data(vec![])])
    );
    assert_eq!(stack_blocks(vec![]), Ok(vec![code(vec![])]));
    assert_eq!(stack_blocks(vec![close(BlockKind::Code)]), Err(ParseError::UnbalancedBrackets));
}

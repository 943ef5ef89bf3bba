use block_lexer::{parse_functions, Block, BlockKind, ParseError, Token};

fn name(s: &str) -> Token {
    Token::Name(s.to_string())
}

fn code(tokens: Vec<Token>) -> Block {
    Block { tokens, kind: BlockKind::Code }
}

fn data(tokens: Vec<Token>) -> Block {
    Block { tokens, kind: BlockKind::Data }
}

fn declaration(params: Vec<Token>, body: Vec<Token>) -> Vec<Token> {
    vec![Token::StartFunction, Token::BlockToken(data(params)), Token::BlockToken(code(body))]
}

#[test]
fn declaration_becomes_one_function() {
    let block = code(declaration(vec![], vec![name("a"), Token::End]));
    let expected = code(vec![Token::Function {
        data: data(vec![]),
        code: code(vec![name("a"), Token::End]),
    }]);
    assert_eq!(parse_functions(block), Ok(expected));
}

#[test]
fn declaration_in_a_body_is_lifted_too() {
    let mut body = vec![name("a")];
    body.extend(declaration(vec![name("p")], vec![name("b")]));
    body.push(Token::End);
    let block = code(declaration(vec![], body));
    let expected = code(vec![Token::Function {
        data: data(vec![]),
        code: code(vec![
            name("a"),
            Token::Function { data: data(vec![name("p")]), code: code(vec![name("b")]) },
            Token::End,
        ]),
    }]);
    assert_eq!(parse_functions(block), Ok(expected));
}

#[test]
fn tokens_around_a_declaration_are_kept() {
    let mut tokens = vec![name("f"), Token::Assign];
    tokens.extend(declaration(vec![name("x")], vec![]));
    tokens.push(Token::End);
    tokens.extend(declaration(vec![], vec![]));
    let expected = code(vec![
        name("f"),
        Token::Assign,
        Token::Function { data: data(vec![name("x")]), code: code(vec![]) },
        Token::End,
        Token::Function { data: data(vec![]), code: code(vec![]) },
    ]);
    assert_eq!(parse_functions(code(tokens)), Ok(expected));
}

#[test]
fn block_without_marker_is_not_looked_into() {
    let inner = declaration(vec![], vec![]);
    let block = code(vec![Token::BlockToken(code(inner))]);
    let expected = code(vec![Token::BlockToken(code(declaration(vec![], vec![])))]);
    assert_eq!(parse_functions(block), Ok(expected));
}

#[test]
fn data_block_of_a_declaration_is_not_looked_into() {
    let params = declaration(vec![], vec![]);
    let block = code(declaration(params, vec![]));
    let expected = code(vec![Token::Function {
        data: data(declaration(vec![], vec![])),
        code: code(vec![]),
    }]);
    assert_eq!(parse_functions(block), Ok(expected));
}

#[test]
fn function_lifting_keeps_the_kind_of_the_block() {
    assert_eq!(parse_functions(data(vec![name("a")])), Ok(data(vec![name("a")])));
    assert_eq!(parse_functions(code(vec![])), Ok(code(vec![])));
}

#[test]
fn marker_without_data_block_is_refused() {
    assert_eq!(
        parse_functions(code(vec![Token::StartFunction])),
        Err(ParseError::MissingFunctionDataBlock)
    );
    assert_eq!(
        parse_functions(code(vec![Token::StartFunction, name("x"), Token::BlockToken(code(vec![]))])),
        Err(ParseError::MissingFunctionDataBlock)
    );
    // a code block where the data block should stand
    assert_eq!(
        parse_functions(code(vec![
            Token::StartFunction,
            Token::BlockToken(code(vec![])),
            Token::BlockToken(code(vec![])),
        ])),
        Err(ParseError::MissingFunctionDataBlock)
    );
}

#[test]
fn marker_without_code_block_is_refused() {
    assert_eq!(
        parse_functions(code(vec![Token::StartFunction, Token::BlockToken(data(vec![]))])),
        Err(ParseError::MissingFunctionCodeBlock)
    );
    assert_eq!(
        parse_functions(code(vec![Token::StartFunction, Token::BlockToken(data(vec![])), Token::End])),
        Err(ParseError::MissingFunctionCodeBlock)
    );
    // a data block where the code block should stand
    assert_eq!(
        parse_functions(code(vec![
            Token::StartFunction,
            Token::BlockToken(data(vec![])),
            Token::BlockToken(data(vec![])),
        ])),
        Err(ParseError::MissingFunctionCodeBlock)
    );
}

#[test]
fn error_in_a_body_is_reported() {
    let block = code(declaration(vec![], vec![Token::StartFunction]));
    assert_eq!(parse_functions(block), Err(ParseError::MissingFunctionDataBlock));
}

#[test]
fn error_in_a_body_comes_before_a_later_one() {
    let mut tokens = declaration(vec![], vec![Token::StartFunction, Token::BlockToken(data(vec![]))]);
    tokens.push(Token::StartFunction);
    assert_eq!(parse_functions(code(tokens)), Err(ParseError::MissingFunctionCodeBlock));
}

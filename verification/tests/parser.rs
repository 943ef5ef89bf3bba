use block_lexer::{
    initial_tokenize, lex, parse_assignments, parse_blocks, parse_functions, parse_strings,
    split_tokens, split_words, trim_all, Block, BlockKind, ParseError, Token,
};

fn name(s: &str) -> Token {
    Token::Name(s.to_string())
}

fn value(s: &str) -> Token {
    Token::Value(s.to_string())
}

fn code(tokens: Vec<Token>) -> Block {
    Block { tokens, kind: BlockKind::Code }
}

fn data(tokens: Vec<Token>) -> Block {
    Block { tokens, kind: BlockKind::Data }
}

fn assignment(set: Token, to: Token) -> Token {
    Token::Assignment { set: Box::new(set), to: Box::new(to) }
}

fn parse(text: &str) -> Result<Block, ParseError> {
    Block::from_string(text.to_string())
}

#[test]
fn stages_agree_on_a_quoted_assignment() {
    let text = "x := \"hi\" ;".to_string();
    let lexemes = split_tokens(&text).unwrap();
    assert_eq!(lexemes, vec!["x", ":=", "\"hi\"", ";"]);
    let tokens = initial_tokenize(lexemes);
    assert_eq!(tokens, vec![name("x"), Token::Assign, value("\"hi\""), Token::End]);
    let root = parse_blocks(tokens).unwrap();
    assert_eq!(root, code(vec![name("x"), Token::Assign, value("\"hi\""), Token::End]));
    let lifted = parse_functions(root).unwrap();
    assert_eq!(lifted, code(vec![name("x"), Token::Assign, value("\"hi\""), Token::End]));
    let done = parse_assignments(lifted).unwrap();
    assert_eq!(done, code(vec![assignment(name("x"), value("\"hi\"")), Token::End]));
    assert_eq!(parse("x := \"hi\" ;"), Ok(done));
}

#[test]
fn function_assigned_to_a_name() {
    let expected = code(vec![
        assignment(
            name("f"),
            Token::Function {
                data: data(vec![]),
                code: code(vec![assignment(name("y"), value("\"v\"")), Token::End]),
            },
        ),
        Token::End,
    ]);
    assert_eq!(parse("f := function ( ) { y := \"v\" ; } ;"), Ok(expected));
}

#[test]
fn function_in_a_function() {
    let text = "outer := function (a) {\n inner := function (b) { c := b ; } ;\n} ;";
    let expected = code(vec![
        assignment(
            name("outer"),
            Token::Function {
                data: data(vec![name("a")]),
                code: code(vec![
                    assignment(
                        name("inner"),
                        Token::Function {
                            data: data(vec![name("b")]),
                            code: code(vec![assignment(name("c"), name("b")), Token::End]),
                        },
                    ),
                    Token::End,
                ]),
            },
        ),
        Token::End,
    ]);
    assert_eq!(parse(text), Ok(expected));
}

#[test]
fn empty_text_is_an_empty_root() {
    assert_eq!(parse(""), Ok(code(vec![])));
    assert_eq!(parse(" \n"), Ok(code(vec![])));
}

#[test]
fn two_names_pass_through_the_whole_pipeline() {
    assert_eq!(parse("a b"), Ok(code(vec![name("a"), name("b")])));
}

#[test]
fn fatal_inputs_are_reported() {
    assert_eq!(parse("x :="), Err(ParseError::InvalidAssignmentMissingValue));
    assert_eq!(parse("{ ( } )"), Err(ParseError::MismatchedBracket));
    assert_eq!(parse("\"unterminated"), Err(ParseError::UnterminatedString));
}

#[test]
fn every_error_has_an_input() {
    assert_eq!(parse("\"a"), Err(ParseError::UnterminatedString));
    assert_eq!(parse("a + b"), Err(ParseError::UnexpectedCharacter));
    assert_eq!(parse("( }"), Err(ParseError::MismatchedBracket));
    assert_eq!(parse("{ a ;"), Err(ParseError::UnbalancedBrackets));
    assert_eq!(parse("a ; }"), Err(ParseError::UnbalancedBrackets));
    assert_eq!(parse("function { }"), Err(ParseError::MissingFunctionDataBlock));
    assert_eq!(parse("function ( ) ;"), Err(ParseError::MissingFunctionCodeBlock));
    assert_eq!(parse("{ a }"), Err(ParseError::NameAtEndOfBlock));
    assert_eq!(parse("( a := )"), Err(ParseError::InvalidAssignmentMissingValue));
}

#[test]
fn earlier_stage_fails_first() {
    // the unterminated literal is found before the crossed brackets
    assert_eq!(parse("{ ( } ) \"a"), Err(ParseError::UnterminatedString));
    // the open block is found before the marker without blocks
    assert_eq!(parse("{ function"), Err(ParseError::UnbalancedBrackets));
    // the marker without blocks is found before the name at the end
    assert_eq!(parse("function x"), Err(ParseError::MissingFunctionDataBlock));
}

#[test]
fn function_not_assigned_keeps_its_body_unlifted() {
    let expected = code(vec![Token::Function {
        data: data(vec![]),
        code: code(vec![name("y"), Token::Assign, value("\"v\""), Token::End]),
    }]);
    assert_eq!(parse("function ( ) { y := \"v\" ; }"), Ok(expected));
}

#[test]
fn parse_strings_runs_the_later_stages() {
    let lexemes = vec!["x".to_string(), ":=".to_string(), "(".to_string(), ")".to_string()];
    let expected = code(vec![assignment(name("x"), Token::BlockToken(data(vec![])))]);
    assert_eq!(parse_strings(lexemes), Ok(expected));
    assert_eq!(parse_strings(vec!["}".to_string()]), Err(ParseError::UnbalancedBrackets));
}

#[test]
fn words_are_cut_at_every_blank() {
    assert_eq!(split_words("a b"), vec!["a", "b"]);
    assert_eq!(split_words(""), vec![""]);
    assert_eq!(split_words(" a\n\nb "), vec!["", "a", "", "b", ""]);
    assert_eq!(split_words("x:=1\t;"), vec!["x:=1\t;"]);
    assert_eq!(split_words("a\t b"), vec!["a\t", "b"]);
}

#[test]
fn lex_reads_blank_separated_text() {
    let expected = vec![code(vec![
        name("x"),
        Token::Assign,
        Token::BlockToken(data(vec![Token::Value("\"v\"".to_string())])),
        Token::End,
    ])];
    assert_eq!(lex("x := ( \"v\" ) ;\n"), Ok(expected));
    // without blanks the text is a single name
    assert_eq!(lex("x:=(\"v\");"), Ok(vec![code(vec![name("x:=(\"v\");")])]));
}

#[test]
fn pieces_lose_the_white_space_at_their_ends() {
    let pieces = vec!["\ta\r".to_string(), "b c".to_string(), "\t".to_string(), "".to_string()];
    assert_eq!(trim_all(&pieces), vec!["a", "b c", "", ""]);
}

#[test]
fn lex_takes_tabs_and_carriage_returns_off_the_pieces() {
    let expected = vec![code(vec![name("x"), Token::Assign, name("y"), Token::End])];
    assert_eq!(lex("x\r\n:= \ty\t ;\r\n"), Ok(expected));
    // white space inside a piece stays
    assert_eq!(lex("a\tb"), Ok(vec![code(vec![name("a\tb")])]));
}

#[test]
fn lex_hands_back_the_open_blocks() {
    assert_eq!(lex(""), Ok(vec![code(vec![])]));
    assert_eq!(lex("a { b"), Ok(vec![code(vec![name("a")]), code(vec![name("b")])]));
    assert_eq!(lex("{ )"), Err(ParseError::MismatchedBracket));
    assert_eq!(lex("}"), Err(ParseError::UnbalancedBrackets));
}

fn assigns_to_names(tokens: &[Token]) -> bool {
    tokens.iter().all(|t| match t {
        Token::Assignment { set, to } => {
            matches!(**set, Token::Name(_)) && assigns_to_names(std::slice::from_ref(&**to))
        }
        Token::BlockToken(b) => assigns_to_names(&b.tokens),
        Token::Function { data, code } => {
            data.kind == BlockKind::Data
                && code.kind == BlockKind::Code
                && assigns_to_names(&data.tokens)
                && assigns_to_names(&code.tokens)
        }
        _ => true,
    })
}

#[test]
fn parsed_tree_is_well_formed() {
    let text = "a := function (x y) { b := { c := \"d\" ; } ; function ( ) { e := ( f ; ) ; } } ;";
    let root = parse(text).unwrap();
    assert_eq!(root.kind, BlockKind::Code);
    assert!(assigns_to_names(&root.tokens));
    assert!(!root.tokens.contains(&Token::StartFunction));
    assert_eq!(root.tokens.len(), 2);
}

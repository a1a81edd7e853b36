use minicomp::lexer::Lexer;
use minicomp::token::{Token, TokenKind};

#[test]
fn lex() {
    let code = "1 +23program-7";
    let mut lexer = Lexer::new(code);

    assert_eq!(
        lexer.next_token(),
        Token {
            kind: TokenKind::Integer,
            spelling: "1".to_string(),
            location: 0,
        }
    );

    assert_eq!(
        lexer.next_token(),
        Token {
            kind: TokenKind::Plus,
            spelling: "+".to_string(),
            location: 2,
        }
    );

    assert_eq!(
        lexer.next_token(),
        Token {
            kind: TokenKind::Integer,
            spelling: "23".to_string(),
            location: 3,
        }
    );

    assert_eq!(
        lexer.next_token(),
        Token {
            kind: TokenKind::Program,
            spelling: "program".to_string(),
            location: 5,
        }
    );

    assert_eq!(
        lexer.next_token(),
        Token {
            kind: TokenKind::Minus,
            spelling: "-".to_string(),
            location: 12,
        }
    );

    assert_eq!(
        lexer.next_token(),
        Token {
            kind: TokenKind::Integer,
            spelling: "7".to_string(),
            location: 13,
        }
    );

    assert_eq!(
        lexer.next_token(),
        Token {
            kind: TokenKind::EOF,
            spelling: "".to_string(),
            location: 14,
        }
    );
}

#[test]
fn integers() {
    let code = " 12 3 -3 256";
    let lexer = Lexer::new(code);

    let result_tokens: Vec<_> = lexer.into_tokens();

    assert_eq!(
        result_tokens
            .iter()
            .map(|token| token.token_kind())
            .collect::<Vec<_>>(),
        vec![
            TokenKind::Integer,
            TokenKind::Integer,
            TokenKind::Minus,
            TokenKind::Integer,
            TokenKind::Integer,
        ]
    );

    let spellings = vec!["12", "3", "-", "3", "256"];
    assert_eq!(
        result_tokens
            .iter()
            .map(|token| token.spelling())
            .collect::<Vec<_>>(),
        spellings
    );

    let start_locations = vec![1, 4, 6, 7, 9];
    assert_eq!(
        result_tokens
            .iter()
            .map(|token| token.start_location())
            .collect::<Vec<_>>(),
        start_locations
    );

    let lens: Vec<_> = spellings.iter().map(|spelling| spelling.len()).collect();
    assert_eq!(
        result_tokens
            .iter()
            .map(|token| token.len())
            .collect::<Vec<_>>(),
        lens
    );

    let end_locations: Vec<_> = start_locations
        .iter()
        .zip(lens.iter())
        .map(|(loc, len)| loc + len)
        .collect();
    assert_eq!(
        result_tokens
            .iter()
            .map(|token| token.end_location())
            .collect::<Vec<_>>(),
        end_locations
    );
}

#[test]
fn operators() {
    let code = ")(+- ) -*";
    let lexer = Lexer::new(code);

    let result_tokens: Vec<_> = lexer.into_tokens();

    assert_eq!(
        result_tokens
            .iter()
            .map(|token| token.token_kind())
            .collect::<Vec<_>>(),
        vec![
            TokenKind::RParen,
            TokenKind::LParen,
            TokenKind::Plus,
            TokenKind::Minus,
            TokenKind::RParen,
            TokenKind::Minus,
            TokenKind::Unknown,
        ]
    );

    let spellings = vec![")", "(", "+", "-", ")", "-", "*"];
    assert_eq!(
        result_tokens
            .iter()
            .map(|token| token.spelling())
            .collect::<Vec<_>>(),
        spellings
    );

    let lens = vec![1; 7];
    assert_eq!(
        result_tokens
            .iter()
            .map(|token| token.len())
            .collect::<Vec<_>>(),
        lens
    );

    let start_locations = vec![0, 1, 2, 3, 5, 7, 8];
    assert_eq!(
        result_tokens
            .iter()
            .map(|token| token.start_location())
            .collect::<Vec<_>>(),
        start_locations
    );

    let end_locations: Vec<_> = start_locations.iter().map(|loc| loc + 1).collect();
    assert_eq!(
        result_tokens
            .iter()
            .map(|token| token.end_location())
            .collect::<Vec<_>>(),
        end_locations
    );
}

#[test]
fn identifers() {
    let code = "program read reAD  Program pRogram xxx";
    let lexer = Lexer::new(code);

    let result_tokens: Vec<_> = lexer.into_tokens();

    assert_eq!(
        result_tokens
            .iter()
            .map(|token| token.token_kind())
            .collect::<Vec<_>>(),
        vec![
            TokenKind::Program,
            TokenKind::Read,
            TokenKind::Unknown,
            TokenKind::Unknown,
            TokenKind::Unknown,
            TokenKind::Unknown,
        ]
    );

    let spellings = vec!["program", "read", "reAD", "Program", "pRogram", "xxx"];
    assert_eq!(
        result_tokens
            .iter()
            .map(|token| token.spelling())
            .collect::<Vec<_>>(),
        spellings
    );

    let lens: Vec<_> = spellings.iter().map(|spelling| spelling.len()).collect();
    assert_eq!(
        result_tokens
            .iter()
            .map(|token| token.len())
            .collect::<Vec<_>>(),
        lens
    );

    let start_locations = vec![0, 8, 13, 19, 27, 35];
    assert_eq!(
        result_tokens
            .iter()
            .map(|token| token.start_location())
            .collect::<Vec<_>>(),
        start_locations
    );

    let end_locations: Vec<_> = start_locations
        .iter()
        .zip(lens.iter())
        .map(|(loc, len)| loc + len)
        .collect();
    assert_eq!(
        result_tokens
            .iter()
            .map(|token| token.end_location())
            .collect::<Vec<_>>(),
        end_locations
    );
}

#[test]
fn lex_empty_input() {
    let mut lexer = Lexer::new("");
    assert_eq!(
        lexer.next_token(),
        Token {
            kind: TokenKind::EOF,
            spelling: "".to_string(),
            location: 0,
        }
    );
    assert_eq!(Lexer::new("   ").into_tokens(), vec![]);
}

#[test]
fn lex_let_and_brackets() {
    let tokens = Lexer::new("let ([x1 10]) x1").into_tokens();
    assert_eq!(
        tokens.iter().map(|t| t.token_kind()).collect::<Vec<_>>(),
        vec![
            TokenKind::Let,
            TokenKind::LParen,
            TokenKind::LSquare,
            TokenKind::Identifier,
            TokenKind::Integer,
            TokenKind::RSquare,
            TokenKind::RParen,
            TokenKind::Identifier,
        ]
    );
}

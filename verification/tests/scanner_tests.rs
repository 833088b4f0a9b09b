use cedar::errors::ScanError;
use cedar::scanner::Scanner;
use cedar::token::{Object, Token, TokenType};

fn scan_src(src: &str) -> (Vec<Token>, Option<ScanError>) {
    let mut scanner = Scanner::new(src.chars().collect(), "test".to_string());
    scanner.scan_tokens()
}

fn kinds_of(tokens: &[Token]) -> Vec<TokenType> {
    tokens.iter().map(|t| t.ttype).collect()
}

fn lexeme_of(token: &Token) -> String {
    token.lexeme.iter().collect()
}

#[test]
fn single_char_tokens() {
    let (tokens, err) = scan_src("(){}:,.;*%^");
    assert!(err.is_none());
    assert_eq!(
        kinds_of(&tokens),
        vec![
            TokenType::LEFTPAREN,
            TokenType::RIGHTPAREN,
            TokenType::LEFTBRACE,
            TokenType::RIGHTBRACE,
            TokenType::COLON,
            TokenType::COMMA,
            TokenType::DOT,
            TokenType::SEMICOLON,
            TokenType::STAR,
            TokenType::MODULO,
            TokenType::POW,
            TokenType::EOF,
        ]
    );
}

#[test]
fn two_char_operators() {
    let (tokens, err) = scan_src("+= -= == != <= >= = < > ! + -");
    assert!(err.is_none());
    assert_eq!(
        kinds_of(&tokens),
        vec![
            TokenType::PLUSEQUALS,
            TokenType::MINUSEQUALS,
            TokenType::EQUALEQUAL,
            TokenType::BANGEQUAL,
            TokenType::LESSEQUAL,
            TokenType::GREATEREQUAL,
            TokenType::EQUAL,
            TokenType::LESS,
            TokenType::GREATER,
            TokenType::BANG,
            TokenType::PLUS,
            TokenType::MINUS,
            TokenType::EOF,
        ]
    );
    assert_eq!(lexeme_of(&tokens[0]), "+=");
    assert_eq!(lexeme_of(&tokens[6]), "=");
}

#[test]
fn exact_token_fields() {
    let (tokens, err) = scan_src("1 + 2");
    assert!(err.is_none());
    let expected = vec![
        Token {
            ttype: TokenType::NUMBER,
            lexeme: vec!['1'],
            literal: Object::Num(vec!['1']),
            line: 0,
            column: 0,
        },
        Token {
            ttype: TokenType::PLUS,
            lexeme: vec!['+'],
            literal: Object::Nil,
            line: 0,
            column: 2,
        },
        Token {
            ttype: TokenType::NUMBER,
            lexeme: vec!['2'],
            literal: Object::Num(vec!['2']),
            line: 0,
            column: 4,
        },
        Token {
            ttype: TokenType::EOF,
            lexeme: vec![],
            literal: Object::Nil,
            line: 0,
            column: 5,
        },
    ];
    assert_eq!(tokens, expected);
}

#[test]
fn comment_runs_to_end_of_line() {
    let (tokens, err) = scan_src("1 // all of this is skipped ({;\n2");
    assert!(err.is_none());
    assert_eq!(kinds_of(&tokens), vec![TokenType::NUMBER, TokenType::NUMBER, TokenType::EOF]);
    assert_eq!(tokens[1].line, 1);
    assert_eq!(tokens[1].column, 0);
}

#[test]
fn comment_at_end_of_input() {
    let (tokens, err) = scan_src("1 // trailing");
    assert!(err.is_none());
    assert_eq!(kinds_of(&tokens), vec![TokenType::NUMBER, TokenType::EOF]);
}

#[test]
fn slash_is_division() {
    let (tokens, err) = scan_src("4 / 2");
    assert!(err.is_none());
    assert_eq!(kinds_of(&tokens), vec![
        TokenType::NUMBER,
        TokenType::SLASH,
        TokenType::NUMBER,
        TokenType::EOF,
    ]);
}

#[test]
fn string_literal_keeps_text() {
    let (tokens, err) = scan_src("\"ab c\"");
    assert!(err.is_none());
    assert_eq!(tokens[0].ttype, TokenType::STRING);
    assert_eq!(lexeme_of(&tokens[0]), "ab c");
    assert_eq!(tokens[0].literal, Object::Str("ab c".chars().collect()));
}

#[test]
fn string_literal_tracks_newlines() {
    let (tokens, err) = scan_src("\"a\nb\" 7");
    assert!(err.is_none());
    assert_eq!(tokens[0].ttype, TokenType::STRING);
    assert_eq!(tokens[0].line, 0);
    // The number after the string sits on the second line (0-based line 1).
    assert_eq!(tokens[1].ttype, TokenType::NUMBER);
    assert_eq!(tokens[1].line, 1);
}

#[test]
fn unterminated_string_fails() {
    let (tokens, err) = scan_src("1 \"abc");
    assert_eq!(err, Some(ScanError::UnterminatedString { line: 0, column: 2 }));
    // The tokens before the error are kept, and EOF still terminates them.
    assert_eq!(kinds_of(&tokens), vec![TokenType::NUMBER, TokenType::EOF]);
}

#[test]
fn unexpected_character_fails() {
    let (tokens, err) = scan_src("1 @ 2");
    assert_eq!(
        err,
        Some(ScanError::UnexpectedCharacter { line: 0, column: 2, found: '@' })
    );
    assert_eq!(kinds_of(&tokens), vec![TokenType::NUMBER, TokenType::EOF]);
}

#[test]
fn number_with_fraction() {
    let (tokens, err) = scan_src("3.14");
    assert!(err.is_none());
    assert_eq!(tokens[0].ttype, TokenType::NUMBER);
    assert_eq!(lexeme_of(&tokens[0]), "3.14");
    assert_eq!(tokens[0].literal, Object::Num("3.14".chars().collect()));
}

#[test]
fn number_decimal_point_needs_digit() {
    let (_tokens, err) = scan_src("1.x");
    assert_eq!(err, Some(ScanError::InvalidNumber { line: 0, column: 0 }));
    let (_tokens2, err2) = scan_src("7.");
    assert_eq!(err2, Some(ScanError::InvalidNumber { line: 0, column: 0 }));
}

#[test]
fn keywords_and_identifiers() {
    let (tokens, err) = scan_src("let x = true; while foo and or nil");
    assert!(err.is_none());
    assert_eq!(
        kinds_of(&tokens),
        vec![
            TokenType::LET,
            TokenType::IDENTIFIER,
            TokenType::EQUAL,
            TokenType::TRUE,
            TokenType::SEMICOLON,
            TokenType::WHILE,
            TokenType::IDENTIFIER,
            TokenType::AND,
            TokenType::OR,
            TokenType::NIL,
            TokenType::EOF,
        ]
    );
    assert_eq!(lexeme_of(&tokens[1]), "x");
    assert_eq!(lexeme_of(&tokens[6]), "foo");
}

#[test]
fn boolean_keywords_carry_literals() {
    let (tokens, err) = scan_src("true false truth");
    assert!(err.is_none());
    assert_eq!(tokens[0].literal, Object::Bool(true));
    assert_eq!(tokens[1].literal, Object::Bool(false));
    // An identifier that merely starts like a keyword stays an identifier.
    assert_eq!(tokens[2].ttype, TokenType::IDENTIFIER);
    assert_eq!(tokens[2].literal, Object::Nil);
}

#[test]
fn empty_source_yields_single_eof() {
    let (tokens, err) = scan_src("");
    assert!(err.is_none());
    let expected = vec![Token {
        ttype: TokenType::EOF,
        lexeme: vec![],
        literal: Object::Nil,
        line: 0,
        column: 0,
    }];
    assert_eq!(tokens, expected);
}

#[test]
fn rescanning_identical_text_is_identical() {
    let src = "let x: i32 = (1 + 2.5) * 3; // trailing\n\"s\"";
    let (first, err1) = scan_src(src);
    let (second, err2) = scan_src(src);
    assert_eq!(err1, None);
    assert_eq!(err2, None);
    assert_eq!(first, second);
}

#[test]
fn eof_position_is_where_scanning_rested() {
    let (tokens, err) = scan_src("a\nbb");
    assert!(err.is_none());
    let eof = tokens.last().unwrap();
    assert_eq!(eof.ttype, TokenType::EOF);
    assert_eq!(eof.line, 1);
    assert_eq!(eof.column, 2);
}

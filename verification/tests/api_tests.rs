use cedar::errors::Error;
use cedar::lookups::{led_lookup, nud_lookup, stmt_lookup, LedHandler, NudHandler, PREC, StmtHandler};
use cedar::parser::Parser;
use cedar::scanner::Scanner;
use cedar::token::{copy_range, keyword_lookup, Object, Token, TokenType};

fn tokens_of(src: &str) -> Vec<Token> {
    let mut scanner = Scanner::new(src.chars().collect(), "test".to_string());
    let (tokens, err) = scanner.scan_tokens();
    assert!(err.is_none());
    tokens
}

#[test]
fn error_new_keeps_fields() {
    let e = Error::new(4, 2, "missing ;".to_string(), "add one".to_string());
    assert_eq!(e.position, 4);
    assert_eq!(e.line, 2);
    assert_eq!(e.message, "missing ;");
    assert_eq!(e.tip, "add one");
}

#[test]
fn token_new_keeps_fields() {
    let t = Token::new(TokenType::NUMBER, vec!['4', '2'], Object::Num(vec!['4', '2']), 1, 3);
    assert_eq!(t.ttype, TokenType::NUMBER);
    assert_eq!(t.lexeme, vec!['4', '2']);
    assert_eq!(t.literal, Object::Num(vec!['4', '2']));
    assert_eq!(t.line, 1);
    assert_eq!(t.column, 3);
}

#[test]
fn keyword_table_is_exact() {
    let hit = |s: &str| keyword_lookup(&s.chars().collect());
    assert_eq!(hit("and"), Some(TokenType::AND));
    assert_eq!(hit("or"), Some(TokenType::OR));
    assert_eq!(hit("if"), Some(TokenType::IF));
    assert_eq!(hit("else"), Some(TokenType::ELSE));
    assert_eq!(hit("let"), Some(TokenType::LET));
    assert_eq!(hit("const"), Some(TokenType::CONST));
    assert_eq!(hit("func"), Some(TokenType::FUNC));
    assert_eq!(hit("for"), Some(TokenType::FOR));
    assert_eq!(hit("while"), Some(TokenType::WHILE));
    assert_eq!(hit("true"), Some(TokenType::TRUE));
    assert_eq!(hit("false"), Some(TokenType::FALSE));
    assert_eq!(hit("nil"), Some(TokenType::NIL));
    assert_eq!(hit("return"), Some(TokenType::RETURN));
    assert_eq!(hit("print"), Some(TokenType::PRINT));
    assert_eq!(hit("iff"), None);
    assert_eq!(hit("Let"), None);
    assert_eq!(hit(""), None);
}

#[test]
fn copy_range_copies_the_given_window() {
    let v: Vec<char> = "abcdef".chars().collect();
    assert_eq!(copy_range(&v, 1, 4), vec!['b', 'c', 'd']);
    assert_eq!(copy_range(&v, 0, 0), Vec::<char>::new());
}

#[test]
fn parser_cursor_walks_the_tokens() {
    let mut parser = Parser::new(tokens_of("1 + 2"));
    assert!(!parser.is_eof());
    assert_eq!(parser.at().ttype, TokenType::NUMBER);
    let first = parser.advance_and_get_current();
    assert_eq!(first.ttype, TokenType::NUMBER);
    assert_eq!(parser.at().ttype, TokenType::PLUS);
    parser.advance();
    parser.advance();
    assert!(parser.is_eof());
    // At the EOF token the cursor stays put.
    parser.advance();
    assert!(parser.is_eof());
}

#[test]
fn token_bp_is_none_at_eof() {
    let mut parser = Parser::new(tokens_of("+"));
    assert_eq!(parser.token_bp(), Some(PREC::Additive));
    parser.advance();
    assert_eq!(parser.token_bp(), None);
}

#[test]
fn expect_reports_what_it_wanted() {
    let mut parser = Parser::new(tokens_of("1"));
    match parser.expect(TokenType::SEMICOLON) {
        Err(cedar::errors::ParseError::UnexpectedToken { expected, found, line, column }) => {
            assert_eq!(expected, TokenType::SEMICOLON);
            assert_eq!(found, TokenType::NUMBER);
            assert_eq!(line, 0);
            assert_eq!(column, 0);
        }
        other => panic!("expected UnexpectedToken, got {:?}", other),
    }
    let t = parser.expect(TokenType::NUMBER).expect("the number is there");
    assert_eq!(t.lexeme, vec!['1']);
}

#[test]
fn dispatch_tables_cover_the_expected_kinds() {
    assert_eq!(nud_lookup(TokenType::NUMBER), Some(NudHandler::Number));
    assert_eq!(nud_lookup(TokenType::STRING), Some(NudHandler::StringLit));
    assert_eq!(nud_lookup(TokenType::IDENTIFIER), Some(NudHandler::Ident));
    assert_eq!(nud_lookup(TokenType::MINUS), Some(NudHandler::UnaryOp));
    assert_eq!(nud_lookup(TokenType::BANG), Some(NudHandler::UnaryOp));
    assert_eq!(nud_lookup(TokenType::LEFTPAREN), Some(NudHandler::Grouping));
    assert_eq!(nud_lookup(TokenType::SEMICOLON), None);

    assert_eq!(led_lookup(TokenType::EQUAL), Some(LedHandler::Assign));
    assert_eq!(led_lookup(TokenType::PLUSEQUALS), Some(LedHandler::Assign));
    assert_eq!(led_lookup(TokenType::PLUS), Some(LedHandler::Binary));
    assert_eq!(led_lookup(TokenType::POW), Some(LedHandler::Binary));
    assert_eq!(led_lookup(TokenType::NUMBER), None);

    assert_eq!(stmt_lookup(TokenType::LEFTBRACE), Some(StmtHandler::Block));
    assert_eq!(stmt_lookup(TokenType::IF), Some(StmtHandler::If));
    assert_eq!(stmt_lookup(TokenType::LET), Some(StmtHandler::VarDecl));
    assert_eq!(stmt_lookup(TokenType::CONST), Some(StmtHandler::VarDecl));
    assert_eq!(stmt_lookup(TokenType::NUMBER), None);
}

#[test]
fn scanner_new_starts_clean() {
    let scanner = Scanner::new("ab".chars().collect(), "unit".to_string());
    assert_eq!(scanner.position, 0);
    assert_eq!(scanner.line, 0);
    assert_eq!(scanner.offset, 0);
    assert!(scanner.tokens.is_empty());
    assert_eq!(scanner.source, vec!['a', 'b']);
    assert_eq!(scanner.file_name, "unit");
}

use cedar::ast::{Expr, Stmt};
use cedar::errors::ParseError;
use cedar::lookups::{binding_power, PREC};
use cedar::parser::Parser;
use cedar::scanner::Scanner;
use cedar::token::TokenType;

fn parse_src(src: &str) -> Result<Vec<Stmt>, ParseError> {
    let mut scanner = Scanner::new(src.chars().collect(), "test".to_string());
    let (tokens, err) = scanner.scan_tokens();
    assert!(err.is_none(), "scan failed: {:?}", err);
    let mut parser = Parser::new(tokens);
    parser.parse()
}

fn chars(v: &Vec<char>) -> String {
    v.iter().collect()
}

/// Renders an expression with every application parenthesised and every
/// source-level grouping in brackets, so the tree shape is visible.
fn expr_str(e: &Expr) -> String {
    match e {
        Expr::NumberLiteral(s) => chars(s),
        Expr::StringLiteral(s) => format!("\"{}\"", chars(s)),
        Expr::Identifier(s) => chars(s),
        Expr::Unary { op, operand } => format!("({}{})", chars(&op.lexeme), expr_str(operand)),
        Expr::BinaryOp { left, op, right } => {
            format!("({} {} {})", expr_str(left), chars(&op.lexeme), expr_str(right))
        }
        Expr::Assignment { target, op, value } => {
            format!("({} {} {})", expr_str(target), chars(&op.lexeme), expr_str(value))
        }
        Expr::Grouping { inner } => format!("[{}]", expr_str(inner)),
    }
}

fn single_expr(src: &str) -> String {
    let stmts = parse_src(src).expect("parse failed");
    assert_eq!(stmts.len(), 1);
    match &stmts[0] {
        Stmt::ExpressionStmt { expr } => expr_str(expr),
        other => panic!("expected an expression statement, got {:?}", other),
    }
}

#[test]
fn multiplication_binds_tighter_than_addition() {
    assert_eq!(single_expr("1 + 2 * 3;"), "(1 + (2 * 3))");
    assert_eq!(single_expr("1 * 2 + 3;"), "((1 * 2) + 3)");
}

#[test]
fn subtraction_is_left_associative() {
    assert_eq!(single_expr("1 - 2 - 3;"), "((1 - 2) - 3)");
    assert_ne!(single_expr("1 - 2 - 3;"), "(1 - (2 - 3))");
}

#[test]
fn grouping_overrides_precedence() {
    assert_eq!(single_expr("(1 + 2) * 3;"), "([(1 + 2)] * 3)");
}

#[test]
fn power_is_right_associative() {
    assert_eq!(single_expr("2 ^ 3 ^ 4;"), "(2 ^ (3 ^ 4))");
}

#[test]
fn assignment_is_right_associative() {
    assert_eq!(single_expr("a = b = c;"), "(a = (b = c))");
}

#[test]
fn compound_assignment_parses() {
    assert_eq!(single_expr("a += b + 1;"), "(a += (b + 1))");
    assert_eq!(single_expr("a -= 2;"), "(a -= 2)");
}

#[test]
fn logical_binds_looser_than_relational() {
    assert_eq!(single_expr("a and b == c;"), "(a and (b == c))");
    assert_eq!(single_expr("a == b or c < d;"), "((a == b) or (c < d))");
}

#[test]
fn unary_binds_tighter_than_multiplication() {
    assert_eq!(single_expr("-1 * 2;"), "((-1) * 2)");
    assert_eq!(single_expr("!a and b;"), "((!a) and b)");
}

#[test]
fn division_and_modulo_parse() {
    assert_eq!(single_expr("8 / 2 % 3;"), "((8 / 2) % 3)");
}

#[test]
fn string_expression_statement() {
    assert_eq!(single_expr("\"hi\";"), "\"hi\"");
}

#[test]
fn dangling_else_binds_to_nearest_if() {
    let stmts = parse_src("if (a) if (b) 1; else 2;").expect("parse failed");
    assert_eq!(stmts.len(), 1);
    match &stmts[0] {
        Stmt::IfStmt { alternate: outer_alt, consequent, .. } => {
            // The outer `if` has no alternate: the inner one consumed the
            // `else` first.
            assert!(outer_alt.is_none());
            match &**consequent {
                Stmt::IfStmt { alternate: inner_alt, .. } => {
                    assert!(inner_alt.is_some());
                }
                other => panic!("expected an inner if, got {:?}", other),
            }
        }
        other => panic!("expected an if statement, got {:?}", other),
    }
}

#[test]
fn else_if_chain_parses() {
    let stmts = parse_src("if (a) 1; else if (b) 2; else 3;").expect("parse failed");
    assert_eq!(stmts.len(), 1);
    match &stmts[0] {
        Stmt::IfStmt { alternate, .. } => match alternate.as_deref() {
            Some(Stmt::IfStmt { alternate: inner_alt, .. }) => {
                assert!(inner_alt.is_some());
            }
            other => panic!("expected an else-if chain, got {:?}", other),
        },
        other => panic!("expected an if statement, got {:?}", other),
    }
}

#[test]
fn const_without_initializer_fails() {
    match parse_src("const x;") {
        Err(ParseError::ConstWithoutInitializer { line, column }) => {
            assert_eq!(line, 0);
            assert_eq!(column, 0);
        }
        other => panic!("expected ConstWithoutInitializer, got {:?}", other),
    }
}

#[test]
fn const_with_initializer_parses() {
    let stmts = parse_src("const x = 1 + 2;").expect("parse failed");
    match &stmts[0] {
        Stmt::VarDeclStmt { name, is_const, declared_type, initializer } => {
            assert_eq!(chars(name), "x");
            assert!(*is_const);
            assert!(declared_type.is_none());
            assert_eq!(expr_str(initializer.as_ref().unwrap()), "(1 + 2)");
        }
        other => panic!("expected a declaration, got {:?}", other),
    }
}

#[test]
fn let_without_initializer_parses() {
    let stmts = parse_src("let x;").expect("parse failed");
    match &stmts[0] {
        Stmt::VarDeclStmt { name, is_const, declared_type, initializer } => {
            assert_eq!(chars(name), "x");
            assert!(!*is_const);
            assert!(declared_type.is_none());
            assert!(initializer.is_none());
        }
        other => panic!("expected a declaration, got {:?}", other),
    }
}

#[test]
fn let_with_type_annotation() {
    let stmts = parse_src("let total: number = 4 - 1;").expect("parse failed");
    match &stmts[0] {
        Stmt::VarDeclStmt { name, declared_type, initializer, .. } => {
            assert_eq!(chars(name), "total");
            let ty = declared_type.as_ref().unwrap();
            assert_eq!(ty.ttype, TokenType::IDENTIFIER);
            assert_eq!(chars(&ty.lexeme), "number");
            assert_eq!(expr_str(initializer.as_ref().unwrap()), "(4 - 1)");
        }
        other => panic!("expected a declaration, got {:?}", other),
    }
}

#[test]
fn block_statement_keeps_order() {
    let stmts = parse_src("{ 1; x; }").expect("parse failed");
    match &stmts[0] {
        Stmt::BlockStmt { body } => {
            assert_eq!(body.len(), 2);
            match &body[0] {
                Stmt::ExpressionStmt { expr } => assert_eq!(expr_str(expr), "1"),
                other => panic!("expected an expression statement, got {:?}", other),
            }
            match &body[1] {
                Stmt::ExpressionStmt { expr } => assert_eq!(expr_str(expr), "x"),
                other => panic!("expected an expression statement, got {:?}", other),
            }
        }
        other => panic!("expected a block, got {:?}", other),
    }
}

#[test]
fn unclosed_block_fails() {
    match parse_src("{ 1;") {
        Err(ParseError::UnexpectedToken { expected, found, .. }) => {
            assert_eq!(expected, TokenType::RIGHTBRACE);
            assert_eq!(found, TokenType::EOF);
        }
        other => panic!("expected UnexpectedToken, got {:?}", other),
    }
}

#[test]
fn missing_semicolon_fails() {
    match parse_src("1 + 2") {
        Err(ParseError::UnexpectedToken { expected, found, .. }) => {
            assert_eq!(expected, TokenType::SEMICOLON);
            assert_eq!(found, TokenType::EOF);
        }
        other => panic!("expected UnexpectedToken, got {:?}", other),
    }
}

#[test]
fn missing_closing_paren_fails() {
    match parse_src("(1 + 2;") {
        Err(ParseError::UnexpectedToken { expected, found, .. }) => {
            assert_eq!(expected, TokenType::RIGHTPAREN);
            assert_eq!(found, TokenType::SEMICOLON);
        }
        other => panic!("expected UnexpectedToken, got {:?}", other),
    }
}

#[test]
fn expression_needs_prefix_handler() {
    match parse_src("* 2;") {
        Err(ParseError::NoPrefixHandler { found, .. }) => {
            assert_eq!(found, TokenType::STAR);
        }
        other => panic!("expected NoPrefixHandler, got {:?}", other),
    }
}

#[test]
fn empty_program_parses_to_nothing() {
    let stmts = parse_src("").expect("parse failed");
    assert!(stmts.is_empty());
}

#[test]
fn several_statements_in_order() {
    let stmts = parse_src("let a = 1; a = a + 1; { a; }").expect("parse failed");
    assert_eq!(stmts.len(), 3);
}

#[test]
fn precedence_table_orders_operators() {
    let assignment = binding_power(TokenType::EQUAL).value();
    let logical = binding_power(TokenType::OR).value();
    let relational = binding_power(TokenType::LESS).value();
    let additive = binding_power(TokenType::PLUS).value();
    let multiplicative = binding_power(TokenType::STAR).value();
    let power = binding_power(TokenType::POW).value();
    assert!(assignment < logical);
    assert!(logical < relational);
    assert!(relational < additive);
    assert!(additive < multiplicative);
    assert!(multiplicative < power);
    // A kind outside the table has the lowest power.
    assert_eq!(binding_power(TokenType::SEMICOLON), PREC::DefaultBp);
    assert_eq!(binding_power(TokenType::SEMICOLON).value(), 0);
}

#[test]
fn malformed_input_ends_in_an_error_not_a_hang() {
    // Parsing always comes to an end in finitely many steps: every token
    // sequence, however malformed, yields a complete result or an error.
    for src in [
        "((((((((",
        "1 + + 2;",
        "if (",
        "{ { {",
        "; ; ;",
        "let = 1;",
        "a = ;",
        "else;",
        "1 2 3",
    ] {
        assert!(parse_src(src).is_err(), "expected an error for {:?}", src);
    }
}

#[test]
fn deeply_nested_input_still_parses() {
    let mut src = String::new();
    for _ in 0..64 {
        src.push('(');
    }
    src.push('1');
    for _ in 0..64 {
        src.push(')');
    }
    src.push(';');
    let stmts = parse_src(&src).expect("parse failed");
    assert_eq!(stmts.len(), 1);
}

#[test]
fn parsing_twice_yields_equal_trees() {
    let src = "if (a < 2) { let b = a ^ 2; } else b -= 1;";
    let first = parse_src(src).expect("parse failed");
    let second = parse_src(src).expect("parse failed");
    assert_eq!(first, second);
}

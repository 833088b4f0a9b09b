//! The parsing handlers the dispatch tables name: prefix handlers for
//! literals, identifiers, unary operators and grouping; infix handlers for
//! binary operators and assignment; and the statement handlers for blocks,
//! conditionals, and variable declarations. Each is proved against its
//! counterpart step of [`crate::parse_spec`].

use vstd::prelude::*;
use crate::ast::{lemma_stmt_models_push, stmt_models, Expr, ExprModel, Stmt, StmtModel};
use crate::errors::ParseError;
use crate::lookups::{
    binding_power, is_right_assoc, spec_led_lookup, spec_nud_lookup, spec_stmt_lookup,
    LedHandler, NudHandler, PREC, StmtHandler,
};
use crate::parse_spec::{
    spec_led_step, spec_parse_block, spec_parse_block_body, spec_parse_if, spec_parse_nud,
    spec_parse_var_decl, step_pos,
};
use crate::parser::{stmt_result_matches, Parser};
use crate::token::{Token, TokenType};

verus! {

/// Prefix handler for a number literal: one token, one leaf node.
pub fn parse_num(parser: &mut Parser) -> (e: Expr)
    requires
        old(parser).wf(),
        spec_nud_lookup(old(parser).toks()[old(parser).current as int].ttype) == Some(
            NudHandler::Number,
        ),
    ensures
        final(parser).wf(),
        final(parser).toks() == old(parser).toks(),
        spec_parse_nud(old(parser).toks(), old(parser).current as int) == Ok::<
            (ExprModel, int),
            ParseError,
        >((e.model(), final(parser).current as int)),
        final(parser).current > old(parser).current,
{
    let token = parser.advance_and_get_current();
    Expr::NumberLiteral(token.lexeme)
}

/// Prefix handler for a string literal.
pub fn parse_string(parser: &mut Parser) -> (e: Expr)
    requires
        old(parser).wf(),
        spec_nud_lookup(old(parser).toks()[old(parser).current as int].ttype) == Some(
            NudHandler::StringLit,
        ),
    ensures
        final(parser).wf(),
        final(parser).toks() == old(parser).toks(),
        spec_parse_nud(old(parser).toks(), old(parser).current as int) == Ok::<
            (ExprModel, int),
            ParseError,
        >((e.model(), final(parser).current as int)),
        final(parser).current > old(parser).current,
{
    let token = parser.advance_and_get_current();
    Expr::StringLiteral(token.lexeme)
}

/// Prefix handler for an identifier.
pub fn parse_identifier(parser: &mut Parser) -> (e: Expr)
    requires
        old(parser).wf(),
        spec_nud_lookup(old(parser).toks()[old(parser).current as int].ttype) == Some(
            NudHandler::Ident,
        ),
    ensures
        final(parser).wf(),
        final(parser).toks() == old(parser).toks(),
        spec_parse_nud(old(parser).toks(), old(parser).current as int) == Ok::<
            (ExprModel, int),
            ParseError,
        >((e.model(), final(parser).current as int)),
        final(parser).current > old(parser).current,
{
    let token = parser.advance_and_get_current();
    Expr::Identifier(token.lexeme)
}

/// Prefix handler for a unary operator: consumes the operator and parses
/// its operand at `Prefix` binding power.
pub fn parse_unary(parser: &mut Parser) -> (r: Result<Expr, ParseError>)
    requires
        old(parser).wf(),
        spec_nud_lookup(old(parser).toks()[old(parser).current as int].ttype) == Some(
            NudHandler::UnaryOp,
        ),
    ensures
        final(parser).wf(),
        final(parser).toks() == old(parser).toks(),
        match r {
            Ok(e) => {
                &&& spec_parse_nud(old(parser).toks(), old(parser).current as int) == Ok::<
                    (ExprModel, int),
                    ParseError,
                >((e.model(), final(parser).current as int))
                &&& final(parser).current > old(parser).current
            },
            Err(pe) => spec_parse_nud(old(parser).toks(), old(parser).current as int) == Err::<
                (ExprModel, int),
                ParseError,
            >(pe),
        },
    decreases old(parser).tokens@.len() - old(parser).current, 0int,
{
    let op = parser.advance_and_get_current();
    match parser.parse_expr(PREC::Prefix) {
        Ok(operand) => Ok(Expr::Unary { op, operand: Box::new(operand) }),
        Err(e) => Err(e),
    }
}

/// Prefix handler for grouping: consumes `(`, parses the inner expression
/// at the lowest binding power, and requires the matching `)`.
pub fn parse_grouping_expr(parser: &mut Parser) -> (r: Result<Expr, ParseError>)
    requires
        old(parser).wf(),
        spec_nud_lookup(old(parser).toks()[old(parser).current as int].ttype) == Some(
            NudHandler::Grouping,
        ),
    ensures
        final(parser).wf(),
        final(parser).toks() == old(parser).toks(),
        match r {
            Ok(e) => {
                &&& spec_parse_nud(old(parser).toks(), old(parser).current as int) == Ok::<
                    (ExprModel, int),
                    ParseError,
                >((e.model(), final(parser).current as int))
                &&& final(parser).current > old(parser).current
            },
            Err(pe) => spec_parse_nud(old(parser).toks(), old(parser).current as int) == Err::<
                (ExprModel, int),
                ParseError,
            >(pe),
        },
    decreases old(parser).tokens@.len() - old(parser).current, 0int,
{
    match parser.expect(TokenType::LEFTPAREN) {
        Ok(_) => {},
        Err(e) => {
            // Impossible: the dispatch saw the `(` under the cursor.
            proof {
                assert(false);
            }
            return Err(e);
        },
    }
    let inner = match parser.parse_expr(PREC::DefaultBp) {
        Ok(e) => e,
        Err(e) => {
            return Err(e);
        },
    };
    match parser.expect(TokenType::RIGHTPAREN) {
        Ok(_) => Ok(Expr::Grouping { inner: Box::new(inner) }),
        Err(e) => Err(e),
    }
}

/// Infix handler for the assignment forms: consumes the operator and parses
/// the right-hand side at the lowest binding power, so assignment is
/// right-associative and binds lowest among the infix forms.
pub fn parse_assignment_expr(parser: &mut Parser, left: Expr) -> (r: Result<Expr, ParseError>)
    requires
        old(parser).wf(),
        spec_led_lookup(old(parser).toks()[old(parser).current as int].ttype) == Some(
            LedHandler::Assign,
        ),
    ensures
        final(parser).wf(),
        final(parser).toks() == old(parser).toks(),
        match r {
            Ok(e) => {
                &&& spec_led_step(
                    old(parser).toks(),
                    old(parser).current as int,
                    left.model(),
                ) == Ok::<(ExprModel, int), ParseError>((e.model(), final(parser).current as int))
                &&& final(parser).current > old(parser).current
            },
            Err(pe) => spec_led_step(old(parser).toks(), old(parser).current as int, left.model())
                == Err::<(ExprModel, int), ParseError>(pe),
        },
    decreases old(parser).tokens@.len() - old(parser).current, 0int,
{
    let op = parser.advance_and_get_current();
    match parser.parse_expr(PREC::DefaultBp) {
        Ok(value) => Ok(Expr::Assignment { target: Box::new(left), op, value: Box::new(value) }),
        Err(e) => Err(e),
    }
}

/// Infix handler for a binary operator: consumes the operator and parses
/// the right operand at the operator's own binding power when the operator
/// is right-associative, and one power above it when it is
/// left-associative.
pub fn parse_binary_expr(parser: &mut Parser, left: Expr) -> (r: Result<Expr, ParseError>)
    requires
        old(parser).wf(),
        spec_led_lookup(old(parser).toks()[old(parser).current as int].ttype) == Some(
            LedHandler::Binary,
        ),
    ensures
        final(parser).wf(),
        final(parser).toks() == old(parser).toks(),
        match r {
            Ok(e) => {
                &&& spec_led_step(
                    old(parser).toks(),
                    old(parser).current as int,
                    left.model(),
                ) == Ok::<(ExprModel, int), ParseError>((e.model(), final(parser).current as int))
                &&& final(parser).current > old(parser).current
            },
            Err(pe) => spec_led_step(old(parser).toks(), old(parser).current as int, left.model())
                == Err::<(ExprModel, int), ParseError>(pe),
        },
    decreases old(parser).tokens@.len() - old(parser).current, 0int,
{
    let op = parser.advance_and_get_current();
    let bp_val = binding_power(op.ttype).value();
    proof {
        assert(bp_val <= 11);
    }
    let rbp = if is_right_assoc(op.ttype) {
        bp_val
    } else {
        bp_val + 1
    };
    match parser.parse_expr_min(rbp) {
        Ok(right) => Ok(Expr::BinaryOp { left: Box::new(left), op, right: Box::new(right) }),
        Err(e) => Err(e),
    }
}

/// Statement handler for a block: consumes `{`, parses statements until
/// `}` or the end of input, and requires the closing `}`.
#[verifier::loop_isolation(false)]
pub fn parse_block_stmt(parser: &mut Parser) -> (r: Result<Stmt, ParseError>)
    requires
        old(parser).wf(),
        spec_stmt_lookup(old(parser).toks()[old(parser).current as int].ttype) == Some(
            StmtHandler::Block,
        ),
    ensures
        final(parser).wf(),
        final(parser).toks() == old(parser).toks(),
        stmt_result_matches(
            spec_parse_block(old(parser).toks(), old(parser).current as int),
            r,
            *old(parser),
            *final(parser),
        ),
    decreases old(parser).tokens@.len() - old(parser).current, 3int,
{
    let ghost toks0 = old(parser).toks();
    let ghost pos0 = old(parser).current as int;
    match parser.expect(TokenType::LEFTBRACE) {
        Ok(_) => {},
        Err(e) => {
            // Impossible: the dispatch saw the `{` under the cursor.
            proof {
                assert(false);
            }
            return Err(e);
        },
    }
    let ghost p1 = parser.current as int;
    let mut body: Vec<Stmt> = Vec::new();
    proof {
        assert(stmt_models(body@) =~= Seq::<StmtModel>::empty());
        match spec_parse_block_body(toks0, p1) {
            Ok((rest, pe)) => {
                assert(stmt_models(body@) + rest =~= rest);
            },
            Err(_) => {},
        }
    }
    while !parser.is_eof() && parser.at().ttype != TokenType::RIGHTBRACE
        invariant
            parser.wf(),
            parser.toks() == toks0,
            pos0 < p1 <= parser.current as int,
            spec_parse_block_body(toks0, p1) == (match spec_parse_block_body(
                toks0,
                parser.current as int,
            ) {
                Ok((rest, pe)) => Ok::<(Seq<StmtModel>, int), ParseError>(
                    (stmt_models(body@) + rest, pe),
                ),
                Err(e) => Err::<(Seq<StmtModel>, int), ParseError>(e),
            }),
        decreases toks0.len() - parser.current,
    {
        let ghost cur_b = parser.current as int;
        let ghost body_b = body@;
        match parser.parse_stmt() {
            Ok(s) => {
                proof {
                    lemma_stmt_models_push(body_b, s);
                    match spec_parse_block_body(toks0, parser.current as int) {
                        Ok((rest, pe)) => {
                            assert(stmt_models(body_b) + (seq![s.model()] + rest)
                                =~= stmt_models(body_b.push(s)) + rest);
                        },
                        Err(_) => {},
                    }
                }
                body.push(s);
            },
            Err(e) => {
                return Err(e);
            },
        }
    }
    proof {
        assert(spec_parse_block_body(toks0, parser.current as int) == Ok::<
            (Seq<StmtModel>, int),
            ParseError,
        >((Seq::<StmtModel>::empty(), parser.current as int)));
        assert(stmt_models(body@) + Seq::<StmtModel>::empty() =~= stmt_models(body@));
    }
    match parser.expect(TokenType::RIGHTBRACE) {
        Ok(_) => Ok(Stmt::BlockStmt { body }),
        Err(e) => Err(e),
    }
}

/// Statement handler for `if`: parses the condition at `Assignment`
/// binding power, the consequent statement, and an optional alternate
/// after `else` — another `if` statement for an `else if` chain, any
/// statement otherwise. A dangling `else` binds to the nearest open `if`:
/// the innermost recursive parse consumes it first.
pub fn parse_if_stmt(parser: &mut Parser) -> (r: Result<Stmt, ParseError>)
    requires
        old(parser).wf(),
        spec_stmt_lookup(old(parser).toks()[old(parser).current as int].ttype) == Some(
            StmtHandler::If,
        ),
    ensures
        final(parser).wf(),
        final(parser).toks() == old(parser).toks(),
        stmt_result_matches(
            spec_parse_if(old(parser).toks(), old(parser).current as int),
            r,
            *old(parser),
            *final(parser),
        ),
    decreases old(parser).tokens@.len() - old(parser).current, 3int,
{
    let ghost toks0 = old(parser).toks();
    let ghost pos0 = old(parser).current as int;
    parser.advance();
    let condition = match parser.parse_expr(PREC::Assignment) {
        Ok(e) => e,
        Err(e) => {
            return Err(e);
        },
    };
    proof {
        assert(step_pos(toks0.len() as int, pos0, parser.current as int)
            == parser.current as int);
    }
    let consequent = match parser.parse_stmt() {
        Ok(s) => s,
        Err(e) => {
            return Err(e);
        },
    };
    let mut alternate: Option<Box<Stmt>> = None;
    if !parser.is_eof() && parser.at().ttype == TokenType::ELSE {
        parser.advance();
        if parser.at().ttype == TokenType::IF {
            match parse_if_stmt(parser) {
                Ok(s) => {
                    alternate = Some(Box::new(s));
                },
                Err(e) => {
                    return Err(e);
                },
            }
        } else {
            match parser.parse_stmt() {
                Ok(s) => {
                    alternate = Some(Box::new(s));
                },
                Err(e) => {
                    return Err(e);
                },
            }
        }
    }
    Ok(Stmt::IfStmt { condition, consequent: Box::new(consequent), alternate })
}

/// Statement handler for a variable declaration: `let` or `const`, the
/// name, an optional `: Type` annotation, an optional `= expression`
/// initializer, and the terminating `;`. A `const` declaration without an
/// initializer is rejected with `ConstWithoutInitializer` before any
/// statement is built.
pub fn parse_var_decl_stmt(parser: &mut Parser) -> (r: Result<Stmt, ParseError>)
    requires
        old(parser).wf(),
        spec_stmt_lookup(old(parser).toks()[old(parser).current as int].ttype) == Some(
            StmtHandler::VarDecl,
        ),
    ensures
        final(parser).wf(),
        final(parser).toks() == old(parser).toks(),
        stmt_result_matches(
            spec_parse_var_decl(old(parser).toks(), old(parser).current as int),
            r,
            *old(parser),
            *final(parser),
        ),
    decreases old(parser).tokens@.len() - old(parser).current, 3int,
{
    let ghost toks0 = old(parser).toks();
    let ghost pos0 = old(parser).current as int;
    let start_token = parser.advance_and_get_current();
    let is_constant = start_token.ttype == TokenType::CONST;
    let name_tok = match parser.expect(TokenType::IDENTIFIER) {
        Ok(t) => t,
        Err(e) => {
            return Err(e);
        },
    };
    let explicit_type: Option<Token> = if parser.at().ttype == TokenType::COLON {
        parser.advance();
        match parser.expect(TokenType::IDENTIFIER) {
            Ok(t) => Some(t),
            Err(e) => {
                return Err(e);
            },
        }
    } else {
        None
    };
    let assignment_value: Option<Expr> = if parser.at().ttype != TokenType::SEMICOLON {
        match parser.expect(TokenType::EQUAL) {
            Ok(_) => {},
            Err(e) => {
                return Err(e);
            },
        }
        match parser.parse_expr(PREC::Assignment) {
            Ok(e) => Some(e),
            Err(e) => {
                return Err(e);
            },
        }
    } else {
        None
    };
    match parser.expect(TokenType::SEMICOLON) {
        Ok(_) => {},
        Err(e) => {
            return Err(e);
        },
    }
    if is_constant && assignment_value.is_none() {
        return Err(
            ParseError::ConstWithoutInitializer {
                line: start_token.line,
                column: start_token.column,
            },
        );
    }
    Ok(
        Stmt::VarDeclStmt {
            name: name_tok.lexeme,
            is_const: is_constant,
            declared_type: explicit_type,
            initializer: assignment_value,
        },
    )
}

} // verus!

//! The spec-level parser: total functions from a token sequence and a
//! position to the statement or expression parsed there, mirroring the
//! precedence-climbing algorithm of [`crate::parser::Parser`], which is
//! proved to return exactly what these functions describe.
//!
//! Every function is defined by recursion over the remaining token count
//! (lexicographically paired with a fixed rank for calls that stay in
//! place), so the definitions themselves witness that parsing any finite
//! token sequence comes to an end. Positions returned by nested parses are
//! guarded by [`step_pos`] before further recursion; the guard is the
//! identity whenever the nested parse made progress, which the executable
//! parser proves it always does.

use vstd::prelude::*;
use crate::ast::{ExprModel, StmtModel};
use crate::errors::ParseError;
use crate::lookups::{
    spec_bp, spec_led_lookup, spec_nud_lookup, spec_right_assoc, spec_stmt_lookup, LedHandler,
    NudHandler, PREC, StmtHandler,
};
use crate::token::{TokenModel, TokenType};

verus! {

/// Clamps the position a nested parse returned so that recursion from it is
/// visibly bounded: the result always lies in `(from, len]`. When the
/// nested parse advanced (`from < to <= len`) — as every successful parse
/// does — this is `to` itself.
pub open spec fn step_pos(len: int, from: int, to: int) -> int {
    if from < to <= len {
        to
    } else {
        from + 1
    }
}

/// Requires the token at `pos` to be of the expected kind: returns it and
/// the next position, or an `UnexpectedToken` error naming what was
/// expected and what stood there.
pub open spec fn spec_expect(toks: Seq<TokenModel>, pos: int, expected: TokenType) -> Result<
    (TokenModel, int),
    ParseError,
> {
    if 0 <= pos < toks.len() {
        let t = toks[pos];
        if t.ttype == expected {
            Ok((t, pos + 1))
        } else {
            Err(
                ParseError::UnexpectedToken {
                    expected,
                    found: t.ttype,
                    line: t.line as usize,
                    column: t.column as usize,
                },
            )
        }
    } else {
        Err(
            ParseError::UnexpectedToken {
                expected,
                found: TokenType::EOF,
                line: 0,
                column: 0,
            },
        )
    }
}

/// The prefix step: dispatches on the prefix table. Literals and
/// identifiers consume one token; a unary operator parses its operand at
/// `Prefix` power; a `(` parses an inner expression at the lowest power and
/// requires the matching `)`. A kind with no prefix handler is a
/// `NoPrefixHandler` error.
pub open spec fn spec_parse_nud(toks: Seq<TokenModel>, pos: int) -> Result<
    (ExprModel, int),
    ParseError,
>
    decreases toks.len() - pos, 0int,
{
    if !(0 <= pos < toks.len()) {
        Err(ParseError::NoPrefixHandler { found: TokenType::EOF, line: 0, column: 0 })
    } else {
        let t = toks[pos];
        match spec_nud_lookup(t.ttype) {
            Some(NudHandler::Number) => Ok((ExprModel::NumberLiteral(t.lexeme), pos + 1)),
            Some(NudHandler::StringLit) => Ok((ExprModel::StringLiteral(t.lexeme), pos + 1)),
            Some(NudHandler::Ident) => Ok((ExprModel::Identifier(t.lexeme), pos + 1)),
            Some(NudHandler::UnaryOp) => match spec_parse_expr(
                toks,
                pos + 1,
                PREC::Prefix.spec_value(),
            ) {
                Ok((operand, p2)) => Ok(
                    (ExprModel::Unary { op: t, operand: Box::new(operand) }, p2),
                ),
                Err(e) => Err(e),
            },
            Some(NudHandler::Grouping) => match spec_parse_expr(
                toks,
                pos + 1,
                PREC::DefaultBp.spec_value(),
            ) {
                Ok((inner, p2)) => match spec_expect(toks, p2, TokenType::RIGHTPAREN) {
                    Ok((_rp, p3)) => Ok((ExprModel::Grouping { inner: Box::new(inner) }, p3)),
                    Err(e) => Err(e),
                },
                Err(e) => Err(e),
            },
            None => Err(
                ParseError::NoPrefixHandler {
                    found: t.ttype,
                    line: t.line as usize,
                    column: t.column as usize,
                },
            ),
        }
    }
}

/// Whether the infix loop continues at `pos` under `min_bp`: the token
/// there has an infix handler and binds at least as tightly as `min_bp`.
pub open spec fn spec_led_applies(toks: Seq<TokenModel>, pos: int, min_bp: int) -> bool {
    &&& 0 <= pos < toks.len()
    &&& spec_led_lookup(toks[pos].ttype) is Some
    &&& spec_bp(toks[pos].ttype).spec_value() >= min_bp
}

/// One infix step: consumes the operator and parses its right-hand side —
/// at the lowest power for an assignment form, at the operator's own power
/// (right-associative) or one above it (left-associative) for a binary
/// operator — and wraps the result around `left`.
pub open spec fn spec_led_step(toks: Seq<TokenModel>, pos: int, left: ExprModel) -> Result<
    (ExprModel, int),
    ParseError,
>
    decreases toks.len() - pos, 2int,
{
    if !(0 <= pos < toks.len()) {
        Err(ParseError::NoPrefixHandler { found: TokenType::EOF, line: 0, column: 0 })
    } else {
        let t = toks[pos];
        match spec_led_lookup(t.ttype) {
            Some(LedHandler::Assign) => match spec_parse_expr(
                toks,
                pos + 1,
                PREC::DefaultBp.spec_value(),
            ) {
                Ok((value, p2)) => Ok(
                    (
                        ExprModel::Assignment {
                            target: Box::new(left),
                            op: t,
                            value: Box::new(value),
                        },
                        p2,
                    ),
                ),
                Err(e) => Err(e),
            },
            Some(LedHandler::Binary) => {
                let rbp = if spec_right_assoc(t.ttype) {
                    spec_bp(t.ttype).spec_value()
                } else {
                    spec_bp(t.ttype).spec_value() + 1
                };
                match spec_parse_expr(toks, pos + 1, rbp) {
                    Ok((right, p2)) => Ok(
                        (
                            ExprModel::BinaryOp {
                                left: Box::new(left),
                                op: t,
                                right: Box::new(right),
                            },
                            p2,
                        ),
                    ),
                    Err(e) => Err(e),
                }
            },
            None => Err(
                ParseError::NoPrefixHandler {
                    found: t.ttype,
                    line: t.line as usize,
                    column: t.column as usize,
                },
            ),
        }
    }
}

/// The infix loop: applies infix steps to `left` while the next token's
/// power stays at or above `min_bp`, and returns `left` with the resting
/// position once it falls below or no infix handler applies.
pub open spec fn spec_parse_led_loop(
    toks: Seq<TokenModel>,
    pos: int,
    left: ExprModel,
    min_bp: int,
) -> Result<(ExprModel, int), ParseError>
    decreases toks.len() - pos, 3int,
{
    if !(0 <= pos < toks.len()) {
        Ok((left, pos))
    } else if spec_led_applies(toks, pos, min_bp) {
        match spec_led_step(toks, pos, left) {
            Ok((new_left, p2)) => spec_parse_led_loop(
                toks,
                step_pos(toks.len() as int, pos, p2),
                new_left,
                min_bp,
            ),
            Err(e) => Err(e),
        }
    } else {
        Ok((left, pos))
    }
}

/// Precedence-climbing expression parsing at `min_bp`: a prefix step
/// produces the first operand, then the infix loop extends it.
pub open spec fn spec_parse_expr(toks: Seq<TokenModel>, pos: int, min_bp: int) -> Result<
    (ExprModel, int),
    ParseError,
>
    decreases toks.len() - pos, 1int,
{
    if !(0 <= pos < toks.len()) {
        Err(ParseError::NoPrefixHandler { found: TokenType::EOF, line: 0, column: 0 })
    } else {
        match spec_parse_nud(toks, pos) {
            Ok((left, p1)) => spec_parse_led_loop(
                toks,
                step_pos(toks.len() as int, pos, p1),
                left,
                min_bp,
            ),
            Err(e) => Err(e),
        }
    }
}

/// A block: `{`, statements until `}` or end of input, and the required
/// closing `}`.
pub open spec fn spec_parse_block(toks: Seq<TokenModel>, pos: int) -> Result<
    (StmtModel, int),
    ParseError,
>
    decreases toks.len() - pos, 4int,
{
    if !(0 <= pos < toks.len()) {
        Err(ParseError::NoPrefixHandler { found: TokenType::EOF, line: 0, column: 0 })
    } else {
        match spec_expect(toks, pos, TokenType::LEFTBRACE) {
            Ok((_lb, p1)) => match spec_parse_block_body(toks, p1) {
                Ok((body, p2)) => match spec_expect(toks, p2, TokenType::RIGHTBRACE) {
                    Ok((_rb, p3)) => Ok((StmtModel::BlockStmt { body }, p3)),
                    Err(e) => Err(e),
                },
                Err(e) => Err(e),
            },
            Err(e) => Err(e),
        }
    }
}

/// The statements of a block body, up to the closing `}` or end of input.
pub open spec fn spec_parse_block_body(toks: Seq<TokenModel>, pos: int) -> Result<
    (Seq<StmtModel>, int),
    ParseError,
>
    decreases toks.len() - pos, 6int,
{
    if !(0 <= pos < toks.len()) {
        Ok((seq![], pos))
    } else if toks[pos].ttype == TokenType::RIGHTBRACE || toks[pos].ttype == TokenType::EOF {
        Ok((seq![], pos))
    } else {
        match spec_parse_stmt(toks, pos) {
            Ok((s, p2)) => match spec_parse_block_body(
                toks,
                step_pos(toks.len() as int, pos, p2),
            ) {
                Ok((rest, p3)) => Ok((seq![s] + rest, p3)),
                Err(e) => Err(e),
            },
            Err(e) => Err(e),
        }
    }
}

/// An `if` statement: the condition is parsed at `Assignment` power, the
/// consequent is a statement, and an optional `else` is followed either by
/// another `if` (an `else if` chain) or by a statement. An `else` always
/// attaches to the nearest open `if`: the inner recursive parse consumes it
/// before any outer one can see it.
pub open spec fn spec_parse_if(toks: Seq<TokenModel>, pos: int) -> Result<
    (StmtModel, int),
    ParseError,
>
    decreases toks.len() - pos, 4int,
{
    if !(0 <= pos < toks.len()) {
        Err(ParseError::NoPrefixHandler { found: TokenType::EOF, line: 0, column: 0 })
    } else {
        match spec_parse_expr(toks, pos + 1, PREC::Assignment.spec_value()) {
            Ok((condition, p2_raw)) => {
                let p2 = step_pos(toks.len() as int, pos, p2_raw);
                match spec_parse_stmt(toks, p2) {
                    Ok((consequent, p3_raw)) => {
                        let p3 = step_pos(toks.len() as int, p2, p3_raw);
                        if 0 <= p3 < toks.len() && toks[p3].ttype == TokenType::ELSE {
                            if p3 + 1 < toks.len() && toks[p3 + 1].ttype == TokenType::IF {
                                match spec_parse_if(toks, p3 + 1) {
                                    Ok((alternate, p4)) => Ok(
                                        (
                                            StmtModel::IfStmt {
                                                condition,
                                                consequent: Box::new(consequent),
                                                alternate: Some(Box::new(alternate)),
                                            },
                                            p4,
                                        ),
                                    ),
                                    Err(e) => Err(e),
                                }
                            } else {
                                match spec_parse_stmt(toks, p3 + 1) {
                                    Ok((alternate, p4)) => Ok(
                                        (
                                            StmtModel::IfStmt {
                                                condition,
                                                consequent: Box::new(consequent),
                                                alternate: Some(Box::new(alternate)),
                                            },
                                            p4,
                                        ),
                                    ),
                                    Err(e) => Err(e),
                                }
                            }
                        } else {
                            Ok(
                                (
                                    StmtModel::IfStmt {
                                        condition,
                                        consequent: Box::new(consequent),
                                        alternate: None,
                                    },
                                    p3,
                                ),
                            )
                        }
                    },
                    Err(e) => Err(e),
                }
            },
            Err(e) => Err(e),
        }
    }
}

/// The tail of a variable declaration, after the name and the optional type
/// annotation: an optional `= expression` initializer at `Assignment`
/// power, the required `;`, and the rule that a `const` declaration without
/// an initializer is a `ConstWithoutInitializer` error (reported at the
/// declaration's first token) rather than a statement.
pub open spec fn spec_parse_var_decl_tail(
    toks: Seq<TokenModel>,
    start: TokenModel,
    is_const: bool,
    name: Seq<char>,
    declared_type: Option<TokenModel>,
    pos: int,
) -> Result<(StmtModel, int), ParseError>
    decreases toks.len() - pos, 2int,
{
    if 0 <= pos < toks.len() && toks[pos].ttype != TokenType::SEMICOLON {
        match spec_expect(toks, pos, TokenType::EQUAL) {
            Ok((_eq, p1)) => match spec_parse_expr(toks, p1, PREC::Assignment.spec_value()) {
                Ok((init, p2)) => match spec_expect(toks, p2, TokenType::SEMICOLON) {
                    Ok((_semi, p3)) => Ok(
                        (
                            StmtModel::VarDeclStmt {
                                name,
                                is_const,
                                declared_type,
                                initializer: Some(init),
                            },
                            p3,
                        ),
                    ),
                    Err(e) => Err(e),
                },
                Err(e) => Err(e),
            },
            Err(e) => Err(e),
        }
    } else {
        match spec_expect(toks, pos, TokenType::SEMICOLON) {
            Ok((_semi, p1)) => if is_const {
                Err(
                    ParseError::ConstWithoutInitializer {
                        line: start.line as usize,
                        column: start.column as usize,
                    },
                )
            } else {
                Ok(
                    (
                        StmtModel::VarDeclStmt {
                            name,
                            is_const,
                            declared_type,
                            initializer: None,
                        },
                        p1,
                    ),
                )
            },
            Err(e) => Err(e),
        }
    }
}

/// A variable declaration: `let` or `const` (recording constness), the
/// identifier, an optional `: Type` annotation naming a type identifier,
/// and the declaration tail.
pub open spec fn spec_parse_var_decl(toks: Seq<TokenModel>, pos: int) -> Result<
    (StmtModel, int),
    ParseError,
>
    decreases toks.len() - pos, 4int,
{
    if !(0 <= pos < toks.len()) {
        Err(ParseError::NoPrefixHandler { found: TokenType::EOF, line: 0, column: 0 })
    } else {
        let start = toks[pos];
        let is_const = start.ttype == TokenType::CONST;
        match spec_expect(toks, pos + 1, TokenType::IDENTIFIER) {
            Ok((name_tok, p2)) => {
                if 0 <= p2 < toks.len() && toks[p2].ttype == TokenType::COLON {
                    match spec_expect(toks, p2 + 1, TokenType::IDENTIFIER) {
                        Ok((ty_tok, p3)) => spec_parse_var_decl_tail(
                            toks,
                            start,
                            is_const,
                            name_tok.lexeme,
                            Some(ty_tok),
                            p3,
                        ),
                        Err(e) => Err(e),
                    }
                } else {
                    spec_parse_var_decl_tail(toks, start, is_const, name_tok.lexeme, None, p2)
                }
            },
            Err(e) => Err(e),
        }
    }
}

/// A statement: dispatches on the statement table; a kind with no entry is
/// an expression statement, terminated by the required `;`.
pub open spec fn spec_parse_stmt(toks: Seq<TokenModel>, pos: int) -> Result<
    (StmtModel, int),
    ParseError,
>
    decreases toks.len() - pos, 5int,
{
    if !(0 <= pos < toks.len()) {
        Err(ParseError::NoPrefixHandler { found: TokenType::EOF, line: 0, column: 0 })
    } else {
        match spec_stmt_lookup(toks[pos].ttype) {
            Some(StmtHandler::Block) => spec_parse_block(toks, pos),
            Some(StmtHandler::If) => spec_parse_if(toks, pos),
            Some(StmtHandler::VarDecl) => spec_parse_var_decl(toks, pos),
            None => match spec_parse_expr(toks, pos, PREC::DefaultBp.spec_value()) {
                Ok((e, p2)) => match spec_expect(toks, p2, TokenType::SEMICOLON) {
                    Ok((_semi, p3)) => Ok((StmtModel::ExpressionStmt { expr: e }, p3)),
                    Err(err) => Err(err),
                },
                Err(err) => Err(err),
            },
        }
    }
}

/// A whole program: statements until the terminating `EOF` token. The
/// first parse error stops parsing and is the result.
pub open spec fn spec_parse_program(toks: Seq<TokenModel>, pos: int) -> Result<
    (Seq<StmtModel>, int),
    ParseError,
>
    decreases toks.len() - pos, 7int,
{
    if !(0 <= pos < toks.len()) {
        Ok((seq![], pos))
    } else if toks[pos].ttype == TokenType::EOF {
        Ok((seq![], pos))
    } else {
        match spec_parse_stmt(toks, pos) {
            Ok((s, p2)) => match spec_parse_program(toks, step_pos(toks.len() as int, pos, p2)) {
                Ok((rest, p3)) => Ok((seq![s] + rest, p3)),
                Err(e) => Err(e),
            },
            Err(e) => Err(e),
        }
    }
}

} // verus!

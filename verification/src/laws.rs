//! Library-wide laws, stated and proved over the spec-level scanner and
//! parser that the executable code is proved to implement.
//!
//! Termination of parsing itself is not a lemma here: every parsing
//! function carries a `decreases` measure over the remaining token count,
//! so Verus accepts it only with a termination proof, and the contracts in
//! [`crate::parser`] add that no handler leaves the cursor unchanged on a
//! success path.

use vstd::prelude::*;
use crate::ast::{ExprModel, StmtModel};
use crate::errors::ParseError;
use crate::lookups::{spec_bp, spec_led_lookup, spec_right_assoc, LedHandler};
use crate::parse_spec::{
    spec_led_applies, spec_parse_block, spec_parse_block_body, spec_parse_expr, spec_parse_if,
    spec_parse_led_loop, spec_parse_nud, spec_parse_program, spec_parse_stmt,
    spec_parse_var_decl, spec_parse_var_decl_tail, step_pos,
};
use crate::scan_spec::spec_scan_tokens;
use crate::token::{TokenModel, TokenType};

verus! {

/// A number literal standing where the following token does not continue
/// the infix loop parses to its leaf node alone.
proof fn lemma_parse_number_atom(toks: Seq<TokenModel>, pos: int, min_bp: int)
    requires
        0 <= pos < toks.len(),
        toks[pos].ttype == TokenType::NUMBER,
        !spec_led_applies(toks, pos + 1, min_bp),
    ensures
        spec_parse_expr(toks, pos, min_bp) == Ok::<(ExprModel, int), ParseError>(
            (ExprModel::NumberLiteral(toks[pos].lexeme), pos + 1),
        ),
{
    let leaf = ExprModel::NumberLiteral(toks[pos].lexeme);
    assert(spec_parse_nud(toks, pos) == Ok::<(ExprModel, int), ParseError>((leaf, pos + 1)));
    assert(step_pos(toks.len() as int, pos, pos + 1) == pos + 1);
    assert(spec_parse_led_loop(toks, pos + 1, leaf, min_bp) == Ok::<
        (ExprModel, int),
        ParseError,
    >((leaf, pos + 1)));
}

/// Precedence: over `a op1 b op2 c`, where `op2` binds strictly tighter
/// than `op1` and both are left-associative binary operators, the tighter
/// operator takes the inner operands — the tree is `a op1 (b op2 c)`.
/// Instantiated at `1 + 2 * 3` this is `1 + (2 * 3)`.
pub proof fn lemma_tighter_operator_binds_inner(toks: Seq<TokenModel>)
    requires
        toks.len() >= 6,
        toks[0].ttype == TokenType::NUMBER,
        toks[2].ttype == TokenType::NUMBER,
        toks[4].ttype == TokenType::NUMBER,
        spec_led_lookup(toks[1].ttype) == Some(LedHandler::Binary),
        spec_led_lookup(toks[3].ttype) == Some(LedHandler::Binary),
        !spec_right_assoc(toks[1].ttype),
        !spec_right_assoc(toks[3].ttype),
        spec_bp(toks[3].ttype).spec_value() > spec_bp(toks[1].ttype).spec_value(),
        spec_led_lookup(toks[5].ttype) is None,
    ensures
        spec_parse_expr(toks, 0, 0) == Ok::<(ExprModel, int), ParseError>(
            (
                ExprModel::BinaryOp {
                    left: Box::new(ExprModel::NumberLiteral(toks[0].lexeme)),
                    op: toks[1],
                    right: Box::new(
                        ExprModel::BinaryOp {
                            left: Box::new(ExprModel::NumberLiteral(toks[2].lexeme)),
                            op: toks[3],
                            right: Box::new(ExprModel::NumberLiteral(toks[4].lexeme)),
                        },
                    ),
                },
                5,
            ),
        ),
{
    let len = toks.len() as int;
    let a = ExprModel::NumberLiteral(toks[0].lexeme);
    let b = ExprModel::NumberLiteral(toks[2].lexeme);
    let c = ExprModel::NumberLiteral(toks[4].lexeme);
    let bp1 = spec_bp(toks[1].ttype).spec_value();
    let bp2 = spec_bp(toks[3].ttype).spec_value();
    let bc = ExprModel::BinaryOp { left: Box::new(b), op: toks[3], right: Box::new(c) };
    let abc = ExprModel::BinaryOp { left: Box::new(a), op: toks[1], right: Box::new(bc) };
    // The innermost operand: `c` alone, nothing continues after it.
    lemma_parse_number_atom(toks, 4, bp2 + 1);
    // `b op2 c` at the right-hand bound of op1: op2 still applies there.
    assert(spec_parse_nud(toks, 2) == Ok::<(ExprModel, int), ParseError>((b, 3)));
    assert(step_pos(len, 2, 3) == 3);
    assert(spec_led_applies(toks, 3, bp1 + 1));
    assert(spec_parse_expr(toks, 4, bp2 + 1) == Ok::<(ExprModel, int), ParseError>((c, 5)));
    assert(crate::parse_spec::spec_led_step(toks, 3, b) == Ok::<(ExprModel, int), ParseError>(
        (bc, 5),
    ));
    assert(step_pos(len, 3, 5) == 5);
    assert(spec_parse_led_loop(toks, 5, bc, bp1 + 1) == Ok::<(ExprModel, int), ParseError>(
        (bc, 5),
    ));
    assert(spec_parse_led_loop(toks, 3, b, bp1 + 1) == Ok::<(ExprModel, int), ParseError>(
        (bc, 5),
    ));
    assert(spec_parse_expr(toks, 2, bp1 + 1) == Ok::<(ExprModel, int), ParseError>((bc, 5)));
    // The whole expression: `a`, then one infix step with op1.
    assert(spec_parse_nud(toks, 0) == Ok::<(ExprModel, int), ParseError>((a, 1)));
    assert(step_pos(len, 0, 1) == 1);
    assert(spec_led_applies(toks, 1, 0));
    assert(crate::parse_spec::spec_led_step(toks, 1, a) == Ok::<(ExprModel, int), ParseError>(
        (abc, 5),
    ));
    assert(step_pos(len, 1, 5) == 5);
    assert(spec_parse_led_loop(toks, 5, abc, 0) == Ok::<(ExprModel, int), ParseError>((abc, 5)));
    assert(spec_parse_led_loop(toks, 1, a, 0) == Ok::<(ExprModel, int), ParseError>((abc, 5)));
}

/// Left-associativity: over `a op1 b op2 c`, where the two operators are
/// left-associative binary operators and `op2` binds no tighter than
/// `op1`, the grouping is to the left — the tree is `(a op1 b) op2 c`, and
/// by the determinism of the parse never `a op1 (b op2 c)`. Instantiated
/// at `1 - 2 - 3` this is `(1 - 2) - 3`.
pub proof fn lemma_same_power_groups_left(toks: Seq<TokenModel>)
    requires
        toks.len() >= 6,
        toks[0].ttype == TokenType::NUMBER,
        toks[2].ttype == TokenType::NUMBER,
        toks[4].ttype == TokenType::NUMBER,
        spec_led_lookup(toks[1].ttype) == Some(LedHandler::Binary),
        spec_led_lookup(toks[3].ttype) == Some(LedHandler::Binary),
        !spec_right_assoc(toks[1].ttype),
        !spec_right_assoc(toks[3].ttype),
        spec_bp(toks[3].ttype).spec_value() <= spec_bp(toks[1].ttype).spec_value(),
        spec_bp(toks[3].ttype).spec_value() >= 0,
        spec_led_lookup(toks[5].ttype) is None,
    ensures
        spec_parse_expr(toks, 0, 0) == Ok::<(ExprModel, int), ParseError>(
            (
                ExprModel::BinaryOp {
                    left: Box::new(
                        ExprModel::BinaryOp {
                            left: Box::new(ExprModel::NumberLiteral(toks[0].lexeme)),
                            op: toks[1],
                            right: Box::new(ExprModel::NumberLiteral(toks[2].lexeme)),
                        },
                    ),
                    op: toks[3],
                    right: Box::new(ExprModel::NumberLiteral(toks[4].lexeme)),
                },
                5,
            ),
        ),
{
    let len = toks.len() as int;
    let a = ExprModel::NumberLiteral(toks[0].lexeme);
    let b = ExprModel::NumberLiteral(toks[2].lexeme);
    let c = ExprModel::NumberLiteral(toks[4].lexeme);
    let bp1 = spec_bp(toks[1].ttype).spec_value();
    let bp2 = spec_bp(toks[3].ttype).spec_value();
    let ab = ExprModel::BinaryOp { left: Box::new(a), op: toks[1], right: Box::new(b) };
    let abc = ExprModel::BinaryOp { left: Box::new(ab), op: toks[3], right: Box::new(c) };
    // The right-hand side of op1 is `b` alone: op2 does not bind at
    // `bp1 + 1`, so the loop stops there — this is what groups left.
    assert(!spec_led_applies(toks, 3, bp1 + 1));
    lemma_parse_number_atom(toks, 2, bp1 + 1);
    // One infix step with op1 wraps `a` and `b`.
    assert(spec_parse_nud(toks, 0) == Ok::<(ExprModel, int), ParseError>((a, 1)));
    assert(step_pos(len, 0, 1) == 1);
    assert(spec_led_applies(toks, 1, 0));
    assert(crate::parse_spec::spec_led_step(toks, 1, a) == Ok::<(ExprModel, int), ParseError>(
        (ab, 3),
    ));
    assert(step_pos(len, 1, 3) == 3);
    // Then the loop continues at op2, whose right-hand side is `c` alone.
    lemma_parse_number_atom(toks, 4, bp2 + 1);
    assert(spec_led_applies(toks, 3, 0));
    assert(crate::parse_spec::spec_led_step(toks, 3, ab) == Ok::<(ExprModel, int), ParseError>(
        (abc, 5),
    ));
    assert(step_pos(len, 3, 5) == 5);
    assert(spec_parse_led_loop(toks, 5, abc, 0) == Ok::<(ExprModel, int), ParseError>((abc, 5)));
    assert(spec_parse_led_loop(toks, 3, ab, 0) == Ok::<(ExprModel, int), ParseError>((abc, 5)));
    assert(spec_parse_led_loop(toks, 1, a, 0) == Ok::<(ExprModel, int), ParseError>((abc, 5)));
}

/// Scanning is a function of the source text alone: re-scanning equal text
/// yields equal token sequences and outcomes. Together with the contract of
/// [`crate::scanner::Scanner::scan_tokens`] — whose result is exactly
/// [`spec_scan_tokens`] of the source — this says two scans of the same
/// text return structurally equal tokens, however freshly allocated.
pub proof fn lemma_scan_deterministic(s1: Seq<char>, s2: Seq<char>)
    requires
        s1 == s2,
    ensures
        spec_scan_tokens(s1) == spec_scan_tokens(s2),
{
}

/// Right-associativity: over `a op1 b op2 c`, where `op1` is a
/// right-associative binary operator and `op2` is a binary operator
/// binding at least as tightly, the grouping is to the right — the tree is
/// `a op1 (b op2 c)`. Instantiated at `2 ^ 3 ^ 4` this is `2 ^ (3 ^ 4)`.
pub proof fn lemma_right_associative_groups_right(toks: Seq<TokenModel>)
    requires
        toks.len() >= 6,
        toks[0].ttype == TokenType::NUMBER,
        toks[2].ttype == TokenType::NUMBER,
        toks[4].ttype == TokenType::NUMBER,
        spec_led_lookup(toks[1].ttype) == Some(LedHandler::Binary),
        spec_led_lookup(toks[3].ttype) == Some(LedHandler::Binary),
        spec_right_assoc(toks[1].ttype),
        spec_bp(toks[3].ttype).spec_value() >= spec_bp(toks[1].ttype).spec_value(),
        spec_led_lookup(toks[5].ttype) is None,
    ensures
        spec_parse_expr(toks, 0, 0) == Ok::<(ExprModel, int), ParseError>(
            (
                ExprModel::BinaryOp {
                    left: Box::new(ExprModel::NumberLiteral(toks[0].lexeme)),
                    op: toks[1],
                    right: Box::new(
                        ExprModel::BinaryOp {
                            left: Box::new(ExprModel::NumberLiteral(toks[2].lexeme)),
                            op: toks[3],
                            right: Box::new(ExprModel::NumberLiteral(toks[4].lexeme)),
                        },
                    ),
                },
                5,
            ),
        ),
{
    let len = toks.len() as int;
    let a = ExprModel::NumberLiteral(toks[0].lexeme);
    let b = ExprModel::NumberLiteral(toks[2].lexeme);
    let c = ExprModel::NumberLiteral(toks[4].lexeme);
    let bp1 = spec_bp(toks[1].ttype).spec_value();
    let bp2 = spec_bp(toks[3].ttype).spec_value();
    let rbp2 = if spec_right_assoc(toks[3].ttype) {
        bp2
    } else {
        bp2 + 1
    };
    let bc = ExprModel::BinaryOp { left: Box::new(b), op: toks[3], right: Box::new(c) };
    let abc = ExprModel::BinaryOp { left: Box::new(a), op: toks[1], right: Box::new(bc) };
    // The right-hand side of op1 is parsed at op1's own power, where op2
    // still applies — this is what groups right.
    lemma_parse_number_atom(toks, 4, rbp2);
    assert(spec_parse_nud(toks, 2) == Ok::<(ExprModel, int), ParseError>((b, 3)));
    assert(step_pos(len, 2, 3) == 3);
    assert(spec_led_applies(toks, 3, bp1));
    assert(crate::parse_spec::spec_led_step(toks, 3, b) == Ok::<(ExprModel, int), ParseError>(
        (bc, 5),
    ));
    assert(step_pos(len, 3, 5) == 5);
    assert(spec_parse_led_loop(toks, 5, bc, bp1) == Ok::<(ExprModel, int), ParseError>((bc, 5)));
    assert(spec_parse_led_loop(toks, 3, b, bp1) == Ok::<(ExprModel, int), ParseError>((bc, 5)));
    assert(spec_parse_expr(toks, 2, bp1) == Ok::<(ExprModel, int), ParseError>((bc, 5)));
    // The whole expression: `a`, then one infix step with op1.
    assert(spec_parse_nud(toks, 0) == Ok::<(ExprModel, int), ParseError>((a, 1)));
    assert(step_pos(len, 0, 1) == 1);
    assert(spec_led_applies(toks, 1, 0));
    assert(crate::parse_spec::spec_led_step(toks, 1, a) == Ok::<(ExprModel, int), ParseError>(
        (abc, 5),
    ));
    assert(step_pos(len, 1, 5) == 5);
    assert(spec_parse_led_loop(toks, 5, abc, 0) == Ok::<(ExprModel, int), ParseError>((abc, 5)));
    assert(spec_parse_led_loop(toks, 1, a, 0) == Ok::<(ExprModel, int), ParseError>((abc, 5)));
}

/// Grouping overrides precedence: over `( a op1 b ) op2 c`, whatever the
/// two operators' powers, the parenthesised pair is one grouped operand of
/// `op2` — the tree is `(group(a op1 b)) op2 c`. Instantiated at
/// `(1 + 2) * 3` this is `(group(1 + 2)) * 3`, where without the
/// parentheses the `*` would have taken `2` alone.
pub proof fn lemma_grouping_overrides_precedence(toks: Seq<TokenModel>)
    requires
        toks.len() >= 8,
        toks[0].ttype == TokenType::LEFTPAREN,
        toks[1].ttype == TokenType::NUMBER,
        toks[3].ttype == TokenType::NUMBER,
        toks[4].ttype == TokenType::RIGHTPAREN,
        toks[6].ttype == TokenType::NUMBER,
        spec_led_lookup(toks[2].ttype) == Some(LedHandler::Binary),
        spec_led_lookup(toks[5].ttype) == Some(LedHandler::Binary),
        !spec_right_assoc(toks[2].ttype),
        !spec_right_assoc(toks[5].ttype),
        spec_led_lookup(toks[7].ttype) is None,
    ensures
        spec_parse_expr(toks, 0, 0) == Ok::<(ExprModel, int), ParseError>(
            (
                ExprModel::BinaryOp {
                    left: Box::new(
                        ExprModel::Grouping {
                            inner: Box::new(
                                ExprModel::BinaryOp {
                                    left: Box::new(ExprModel::NumberLiteral(toks[1].lexeme)),
                                    op: toks[2],
                                    right: Box::new(ExprModel::NumberLiteral(toks[3].lexeme)),
                                },
                            ),
                        },
                    ),
                    op: toks[5],
                    right: Box::new(ExprModel::NumberLiteral(toks[6].lexeme)),
                },
                7,
            ),
        ),
{
    let len = toks.len() as int;
    let a = ExprModel::NumberLiteral(toks[1].lexeme);
    let b = ExprModel::NumberLiteral(toks[3].lexeme);
    let c = ExprModel::NumberLiteral(toks[6].lexeme);
    let bp1 = spec_bp(toks[2].ttype).spec_value();
    let bp2 = spec_bp(toks[5].ttype).spec_value();
    let ab = ExprModel::BinaryOp { left: Box::new(a), op: toks[2], right: Box::new(b) };
    let gr = ExprModel::Grouping { inner: Box::new(ab) };
    let whole = ExprModel::BinaryOp { left: Box::new(gr), op: toks[5], right: Box::new(c) };
    // Inside the parentheses: `a op1 b`, stopped by the `)`.
    assert(!spec_led_applies(toks, 3, bp1 + 1));
    lemma_parse_number_atom(toks, 3, bp1 + 1);
    assert(spec_parse_nud(toks, 1) == Ok::<(ExprModel, int), ParseError>((a, 2)));
    assert(step_pos(len, 1, 2) == 2);
    assert(spec_led_applies(toks, 2, 0));
    assert(crate::parse_spec::spec_led_step(toks, 2, a) == Ok::<(ExprModel, int), ParseError>(
        (ab, 4),
    ));
    assert(step_pos(len, 2, 4) == 4);
    assert(spec_parse_led_loop(toks, 4, ab, 0) == Ok::<(ExprModel, int), ParseError>((ab, 4)));
    assert(spec_parse_led_loop(toks, 2, a, 0) == Ok::<(ExprModel, int), ParseError>((ab, 4)));
    assert(spec_parse_expr(toks, 1, 0) == Ok::<(ExprModel, int), ParseError>((ab, 4)));
    // The grouping handler consumes `(`, the pair, and the `)`.
    assert(spec_parse_nud(toks, 0) == Ok::<(ExprModel, int), ParseError>((gr, 5)));
    // One infix step with op2 takes the grouping whole as its left operand.
    lemma_parse_number_atom(toks, 6, bp2 + 1);
    assert(step_pos(len, 0, 5) == 5);
    assert(spec_led_applies(toks, 5, 0));
    assert(crate::parse_spec::spec_led_step(toks, 5, gr) == Ok::<(ExprModel, int), ParseError>(
        (whole, 7),
    ));
    assert(step_pos(len, 5, 7) == 7);
    assert(spec_parse_led_loop(toks, 7, whole, 0) == Ok::<(ExprModel, int), ParseError>(
        (whole, 7),
    ));
    assert(spec_parse_led_loop(toks, 5, gr, 0) == Ok::<(ExprModel, int), ParseError>(
        (whole, 7),
    ));
}

/// The dangling `else` binds to the nearest open `if`: over
/// `if ( a ) if ( b ) n1 ; else n2 ;` the `else` branch belongs to the
/// inner conditional, and the outer one has no alternate. Instantiated at
/// `if (a) if (b) 1; else 2;` the `2` is the inner `if`'s alternate.
pub proof fn lemma_dangling_else_binds_inner(toks: Seq<TokenModel>)
    requires
        toks.len() >= 14,
        toks[0].ttype == TokenType::IF,
        toks[1].ttype == TokenType::LEFTPAREN,
        toks[2].ttype == TokenType::IDENTIFIER,
        toks[3].ttype == TokenType::RIGHTPAREN,
        toks[4].ttype == TokenType::IF,
        toks[5].ttype == TokenType::LEFTPAREN,
        toks[6].ttype == TokenType::IDENTIFIER,
        toks[7].ttype == TokenType::RIGHTPAREN,
        toks[8].ttype == TokenType::NUMBER,
        toks[9].ttype == TokenType::SEMICOLON,
        toks[10].ttype == TokenType::ELSE,
        toks[11].ttype == TokenType::NUMBER,
        toks[12].ttype == TokenType::SEMICOLON,
        toks[13].ttype == TokenType::EOF,
    ensures
        spec_parse_stmt(toks, 0) == Ok::<(StmtModel, int), ParseError>(
            (
                StmtModel::IfStmt {
                    condition: ExprModel::Grouping {
                        inner: Box::new(ExprModel::Identifier(toks[2].lexeme)),
                    },
                    consequent: Box::new(
                        StmtModel::IfStmt {
                            condition: ExprModel::Grouping {
                                inner: Box::new(ExprModel::Identifier(toks[6].lexeme)),
                            },
                            consequent: Box::new(
                                StmtModel::ExpressionStmt {
                                    expr: ExprModel::NumberLiteral(toks[8].lexeme),
                                },
                            ),
                            alternate: Some(
                                Box::new(
                                    StmtModel::ExpressionStmt {
                                        expr: ExprModel::NumberLiteral(toks[11].lexeme),
                                    },
                                ),
                            ),
                        },
                    ),
                    alternate: None,
                },
                13,
            ),
        ),
{
    let len = toks.len() as int;
    let asn = crate::lookups::PREC::Assignment.spec_value();
    let cond_a = ExprModel::Grouping { inner: Box::new(ExprModel::Identifier(toks[2].lexeme)) };
    let cond_b = ExprModel::Grouping { inner: Box::new(ExprModel::Identifier(toks[6].lexeme)) };
    let then_inner = StmtModel::ExpressionStmt { expr: ExprModel::NumberLiteral(toks[8].lexeme) };
    let else_inner = StmtModel::ExpressionStmt { expr: ExprModel::NumberLiteral(toks[11].lexeme) };
    let inner_if = StmtModel::IfStmt {
        condition: cond_b,
        consequent: Box::new(then_inner),
        alternate: Some(Box::new(else_inner)),
    };
    // The outer condition: `( a )`, a grouping around the identifier.
    assert(spec_parse_nud(toks, 2) == Ok::<(ExprModel, int), ParseError>(
        (ExprModel::Identifier(toks[2].lexeme), 3),
    ));
    assert(step_pos(len, 2, 3) == 3);
    assert(spec_parse_led_loop(toks, 3, ExprModel::Identifier(toks[2].lexeme), 0) == Ok::<
        (ExprModel, int),
        ParseError,
    >((ExprModel::Identifier(toks[2].lexeme), 3)));
    assert(spec_parse_expr(toks, 2, 0) == Ok::<(ExprModel, int), ParseError>(
        (ExprModel::Identifier(toks[2].lexeme), 3),
    ));
    assert(spec_parse_nud(toks, 1) == Ok::<(ExprModel, int), ParseError>((cond_a, 4)));
    assert(step_pos(len, 1, 4) == 4);
    assert(spec_parse_led_loop(toks, 4, cond_a, asn) == Ok::<(ExprModel, int), ParseError>(
        (cond_a, 4),
    ));
    assert(spec_parse_expr(toks, 1, asn) == Ok::<(ExprModel, int), ParseError>((cond_a, 4)));
    // The inner condition: `( b )`.
    assert(spec_parse_nud(toks, 6) == Ok::<(ExprModel, int), ParseError>(
        (ExprModel::Identifier(toks[6].lexeme), 7),
    ));
    assert(step_pos(len, 6, 7) == 7);
    assert(spec_parse_led_loop(toks, 7, ExprModel::Identifier(toks[6].lexeme), 0) == Ok::<
        (ExprModel, int),
        ParseError,
    >((ExprModel::Identifier(toks[6].lexeme), 7)));
    assert(spec_parse_expr(toks, 6, 0) == Ok::<(ExprModel, int), ParseError>(
        (ExprModel::Identifier(toks[6].lexeme), 7),
    ));
    assert(spec_parse_nud(toks, 5) == Ok::<(ExprModel, int), ParseError>((cond_b, 8)));
    assert(step_pos(len, 5, 8) == 8);
    assert(spec_parse_led_loop(toks, 8, cond_b, asn) == Ok::<(ExprModel, int), ParseError>(
        (cond_b, 8),
    ));
    assert(spec_parse_expr(toks, 5, asn) == Ok::<(ExprModel, int), ParseError>((cond_b, 8)));
    // The two expression statements.
    lemma_parse_number_atom(toks, 8, 0);
    assert(spec_parse_stmt(toks, 8) == Ok::<(StmtModel, int), ParseError>((then_inner, 10)));
    lemma_parse_number_atom(toks, 11, 0);
    assert(spec_parse_stmt(toks, 11) == Ok::<(StmtModel, int), ParseError>((else_inner, 13)));
    // The inner `if` sees the `else` at position 10 and takes it.
    assert(step_pos(len, 4, 8) == 8);
    assert(step_pos(len, 8, 10) == 10);
    assert(spec_parse_if(toks, 4) == Ok::<(StmtModel, int), ParseError>((inner_if, 13)));
    assert(spec_parse_stmt(toks, 4) == Ok::<(StmtModel, int), ParseError>((inner_if, 13)));
    // The outer `if` resumes at position 13, where no `else` stands: its
    // alternate is empty.
    assert(step_pos(len, 0, 4) == 4);
    assert(step_pos(len, 4, 13) == 13);
    assert(spec_parse_if(toks, 0) == Ok::<(StmtModel, int), ParseError>(
        (
            StmtModel::IfStmt {
                condition: cond_a,
                consequent: Box::new(inner_if),
                alternate: None,
            },
            13,
        ),
    ));
}

/// The `const` invariant on one statement: every `const` declaration in it,
/// at any depth, carries an initializer.
pub open spec fn stmt_const_ok(s: StmtModel) -> bool
    decreases s,
{
    match s {
        StmtModel::ExpressionStmt { .. } => true,
        StmtModel::BlockStmt { body } => stmts_const_ok(body),
        StmtModel::IfStmt { condition, consequent, alternate } => {
            &&& stmt_const_ok(*consequent)
            &&& match alternate {
                Some(a) => stmt_const_ok(*a),
                None => true,
            }
        },
        StmtModel::VarDeclStmt { is_const, initializer, .. } => is_const ==> initializer is Some,
    }
}

/// The `const` invariant on a statement sequence.
pub open spec fn stmts_const_ok(v: Seq<StmtModel>) -> bool
    decreases v,
{
    v.len() == 0 || (stmt_const_ok(v[0]) && stmts_const_ok(v.subrange(1, v.len() as int)))
}

/// The invariant distributes over prepending one statement.
proof fn lemma_stmts_const_ok_cons(s: StmtModel, rest: Seq<StmtModel>)
    ensures
        stmts_const_ok(seq![s] + rest) == (stmt_const_ok(s) && stmts_const_ok(rest)),
{
    let whole = seq![s] + rest;
    assert(whole[0] == s);
    assert(whole.subrange(1, whole.len() as int) =~= rest);
}

/// A parsed declaration tail keeps the `const` invariant: it only succeeds
/// with an initializer or on a non-`const` declaration.
proof fn lemma_var_decl_tail_const_ok(
    toks: Seq<TokenModel>,
    start: TokenModel,
    is_const: bool,
    name: Seq<char>,
    declared_type: Option<TokenModel>,
    pos: int,
)
    ensures
        (spec_parse_var_decl_tail(toks, start, is_const, name, declared_type, pos) matches Ok(r)
            ==> stmt_const_ok(r.0)),
{
}

/// A parsed variable declaration keeps the `const` invariant.
proof fn lemma_var_decl_const_ok(toks: Seq<TokenModel>, pos: int)
    ensures
        (spec_parse_var_decl(toks, pos) matches Ok(r) ==> stmt_const_ok(r.0)),
{
    if 0 <= pos < toks.len() {
        let start = toks[pos];
        let is_const = start.ttype == TokenType::CONST;
        match crate::parse_spec::spec_expect(toks, pos + 1, TokenType::IDENTIFIER) {
            Ok((name_tok, p2)) => {
                if 0 <= p2 < toks.len() && toks[p2].ttype == TokenType::COLON {
                    match crate::parse_spec::spec_expect(toks, p2 + 1, TokenType::IDENTIFIER) {
                        Ok((ty_tok, p3)) => {
                            lemma_var_decl_tail_const_ok(toks, start, is_const, name_tok.lexeme,
                                Some(ty_tok), p3);
                        },
                        Err(_) => {},
                    }
                } else {
                    lemma_var_decl_tail_const_ok(toks, start, is_const, name_tok.lexeme, None, p2);
                }
            },
            Err(_) => {},
        }
    }
}

/// A parsed statement keeps the `const` invariant, at any depth.
proof fn lemma_stmt_const_ok(toks: Seq<TokenModel>, pos: int)
    ensures
        (spec_parse_stmt(toks, pos) matches Ok(r) ==> stmt_const_ok(r.0)),
    decreases toks.len() - pos, 8int,
{
    if 0 <= pos < toks.len() {
        match crate::lookups::spec_stmt_lookup(toks[pos].ttype) {
            Some(crate::lookups::StmtHandler::Block) => {
                lemma_block_const_ok(toks, pos);
            },
            Some(crate::lookups::StmtHandler::If) => {
                lemma_if_const_ok(toks, pos);
            },
            Some(crate::lookups::StmtHandler::VarDecl) => {
                lemma_var_decl_const_ok(toks, pos);
            },
            None => {},
        }
    }
}

/// A parsed block keeps the `const` invariant.
proof fn lemma_block_const_ok(toks: Seq<TokenModel>, pos: int)
    ensures
        (spec_parse_block(toks, pos) matches Ok(r) ==> stmt_const_ok(r.0)),
    decreases toks.len() - pos, 7int,
{
    if 0 <= pos < toks.len() {
        match crate::parse_spec::spec_expect(toks, pos, TokenType::LEFTBRACE) {
            Ok((_lb, p1)) => {
                lemma_block_body_const_ok(toks, p1);
            },
            Err(_) => {},
        }
    }
}

/// The statements of a parsed block body keep the `const` invariant.
proof fn lemma_block_body_const_ok(toks: Seq<TokenModel>, pos: int)
    ensures
        (spec_parse_block_body(toks, pos) matches Ok(r) ==> stmts_const_ok(r.0)),
    decreases toks.len() - pos, 9int,
{
    if 0 <= pos < toks.len() && toks[pos].ttype != TokenType::RIGHTBRACE && toks[pos].ttype
        != TokenType::EOF {
        match spec_parse_stmt(toks, pos) {
            Ok((s, p2)) => {
                lemma_stmt_const_ok(toks, pos);
                let pn = step_pos(toks.len() as int, pos, p2);
                lemma_block_body_const_ok(toks, pn);
                match spec_parse_block_body(toks, pn) {
                    Ok((rest, _p3)) => {
                        lemma_stmts_const_ok_cons(s, rest);
                    },
                    Err(_) => {},
                }
            },
            Err(_) => {},
        }
    }
}

/// A parsed `if` statement keeps the `const` invariant.
proof fn lemma_if_const_ok(toks: Seq<TokenModel>, pos: int)
    ensures
        (spec_parse_if(toks, pos) matches Ok(r) ==> stmt_const_ok(r.0)),
    decreases toks.len() - pos, 7int,
{
    if 0 <= pos < toks.len() {
        match crate::parse_spec::spec_parse_expr(
            toks,
            pos + 1,
            crate::lookups::PREC::Assignment.spec_value(),
        ) {
            Ok((_cond, p2_raw)) => {
                let p2 = step_pos(toks.len() as int, pos, p2_raw);
                lemma_stmt_const_ok(toks, p2);
                match spec_parse_stmt(toks, p2) {
                    Ok((_cons, p3_raw)) => {
                        let p3 = step_pos(toks.len() as int, p2, p3_raw);
                        if 0 <= p3 < toks.len() && toks[p3].ttype == TokenType::ELSE {
                            if p3 + 1 < toks.len() && toks[p3 + 1].ttype == TokenType::IF {
                                lemma_if_const_ok(toks, p3 + 1);
                            } else {
                                lemma_stmt_const_ok(toks, p3 + 1);
                            }
                        }
                    },
                    Err(_) => {},
                }
            },
            Err(_) => {},
        }
    }
}

/// The `const` invariant of the whole parse: every statement of a
/// successfully parsed program satisfies it, so a `const` declaration
/// without an initializer is never constructed — parsing fails with
/// `ConstWithoutInitializer` instead. Together with the contract of
/// [`crate::parser::Parser::parse`], whose result models exactly
/// [`spec_parse_program`], the invariant holds of every tree the parser
/// returns.
pub proof fn lemma_program_const_invariant(toks: Seq<TokenModel>, pos: int)
    ensures
        (spec_parse_program(toks, pos) matches Ok(r) ==> stmts_const_ok(r.0)),
    decreases toks.len() - pos, 10int,
{
    if 0 <= pos < toks.len() && toks[pos].ttype != TokenType::EOF {
        match spec_parse_stmt(toks, pos) {
            Ok((s, p2)) => {
                lemma_stmt_const_ok(toks, pos);
                let pn = step_pos(toks.len() as int, pos, p2);
                lemma_program_const_invariant(toks, pn);
                match spec_parse_program(toks, pn) {
                    Ok((rest, _p3)) => {
                        lemma_stmts_const_ok_cons(s, rest);
                    },
                    Err(_) => {},
                }
            },
            Err(_) => {},
        }
    }
}

/// The prefix step consumes at least one token and never passes the end.
proof fn lemma_nud_progress(toks: Seq<TokenModel>, pos: int)
    ensures
        (spec_parse_nud(toks, pos) matches Ok(r) ==> pos < r.1 <= toks.len()),
    decreases toks.len() - pos, 8int,
{
    if 0 <= pos < toks.len() {
        match crate::lookups::spec_nud_lookup(toks[pos].ttype) {
            Some(crate::lookups::NudHandler::UnaryOp) => {
                lemma_expr_progress(toks, pos + 1, crate::lookups::PREC::Prefix.spec_value());
            },
            Some(crate::lookups::NudHandler::Grouping) => {
                lemma_expr_progress(toks, pos + 1, 0);
            },
            _ => {},
        }
    }
}

/// The infix loop never moves the position backwards or past the end.
proof fn lemma_led_loop_progress(toks: Seq<TokenModel>, pos: int, left: ExprModel, min_bp: int)
    requires
        pos <= toks.len(),
    ensures
        (spec_parse_led_loop(toks, pos, left, min_bp) matches Ok(r) ==> pos <= r.1
            <= toks.len()),
    decreases toks.len() - pos, 10int,
{
    if 0 <= pos < toks.len() && spec_led_applies(toks, pos, min_bp) {
        match crate::parse_spec::spec_led_step(toks, pos, left) {
            Ok((new_left, p2)) => {
                let pn = step_pos(toks.len() as int, pos, p2);
                lemma_led_loop_progress(toks, pn, new_left, min_bp);
            },
            Err(_) => {},
        }
    }
}

/// A parsed expression consumes at least one token and never passes the
/// end of the sequence.
proof fn lemma_expr_progress(toks: Seq<TokenModel>, pos: int, min_bp: int)
    ensures
        (spec_parse_expr(toks, pos, min_bp) matches Ok(r) ==> pos < r.1 <= toks.len()),
    decreases toks.len() - pos, 9int,
{
    if 0 <= pos < toks.len() {
        lemma_nud_progress(toks, pos);
        match spec_parse_nud(toks, pos) {
            Ok((left, p1)) => {
                let pn = step_pos(toks.len() as int, pos, p1);
                lemma_led_loop_progress(toks, pn, left, min_bp);
            },
            Err(_) => {},
        }
    }
}

/// A parsed block consumes at least one token and never passes the end.
proof fn lemma_block_progress(toks: Seq<TokenModel>, pos: int)
    ensures
        (spec_parse_block(toks, pos) matches Ok(r) ==> pos < r.1 <= toks.len()),
    decreases toks.len() - pos, 11int,
{
    if 0 <= pos < toks.len() {
        match crate::parse_spec::spec_expect(toks, pos, TokenType::LEFTBRACE) {
            Ok((_lb, p1)) => {
                lemma_block_body_progress(toks, p1);
            },
            Err(_) => {},
        }
    }
}

/// A parsed block body never moves the position backwards or past the end.
proof fn lemma_block_body_progress(toks: Seq<TokenModel>, pos: int)
    requires
        0 <= pos <= toks.len(),
    ensures
        (spec_parse_block_body(toks, pos) matches Ok(r) ==> pos <= r.1 <= toks.len()),
    decreases toks.len() - pos, 13int,
{
    if 0 <= pos < toks.len() && toks[pos].ttype != TokenType::RIGHTBRACE && toks[pos].ttype
        != TokenType::EOF {
        match spec_parse_stmt(toks, pos) {
            Ok((_s, p2)) => {
                let pn = step_pos(toks.len() as int, pos, p2);
                lemma_block_body_progress(toks, pn);
            },
            Err(_) => {},
        }
    }
}

/// A parsed `if` statement consumes at least one token and never passes
/// the end.
proof fn lemma_if_progress(toks: Seq<TokenModel>, pos: int)
    ensures
        (spec_parse_if(toks, pos) matches Ok(r) ==> pos < r.1 <= toks.len()),
    decreases toks.len() - pos, 11int,
{
    if 0 <= pos < toks.len() {
        match crate::parse_spec::spec_parse_expr(
            toks,
            pos + 1,
            crate::lookups::PREC::Assignment.spec_value(),
        ) {
            Ok((_cond, p2_raw)) => {
                let p2 = step_pos(toks.len() as int, pos, p2_raw);
                match spec_parse_stmt(toks, p2) {
                    Ok((_cons, p3_raw)) => {
                        let p3 = step_pos(toks.len() as int, p2, p3_raw);
                        if 0 <= p3 < toks.len() && toks[p3].ttype == TokenType::ELSE {
                            if p3 + 1 < toks.len() && toks[p3 + 1].ttype == TokenType::IF {
                                lemma_if_progress(toks, p3 + 1);
                            } else {
                                lemma_stmt_progress(toks, p3 + 1);
                            }
                        }
                    },
                    Err(_) => {},
                }
            },
            Err(_) => {},
        }
    }
}

/// A parsed declaration consumes at least one token and never passes the
/// end.
proof fn lemma_var_decl_progress(toks: Seq<TokenModel>, pos: int)
    ensures
        (spec_parse_var_decl(toks, pos) matches Ok(r) ==> pos < r.1 <= toks.len()),
    decreases toks.len() - pos, 11int,
{
    if 0 <= pos < toks.len() {
        let start = toks[pos];
        let is_const = start.ttype == TokenType::CONST;
        match crate::parse_spec::spec_expect(toks, pos + 1, TokenType::IDENTIFIER) {
            Ok((name_tok, p2)) => {
                if 0 <= p2 < toks.len() && toks[p2].ttype == TokenType::COLON {
                    match crate::parse_spec::spec_expect(toks, p2 + 1, TokenType::IDENTIFIER) {
                        Ok((ty_tok, p3)) => {
                            lemma_var_decl_tail_progress(toks, start, is_const, name_tok.lexeme,
                                Some(ty_tok), p3);
                        },
                        Err(_) => {},
                    }
                } else {
                    lemma_var_decl_tail_progress(toks, start, is_const, name_tok.lexeme, None,
                        p2);
                }
            },
            Err(_) => {},
        }
    }
}

/// A parsed declaration tail never moves the position backwards or past
/// the end.
proof fn lemma_var_decl_tail_progress(
    toks: Seq<TokenModel>,
    start: TokenModel,
    is_const: bool,
    name: Seq<char>,
    declared_type: Option<TokenModel>,
    pos: int,
)
    ensures
        (spec_parse_var_decl_tail(toks, start, is_const, name, declared_type, pos) matches Ok(r)
            ==> pos < r.1 <= toks.len()),
    decreases toks.len() - pos, 9int,
{
    if 0 <= pos < toks.len() && toks[pos].ttype != TokenType::SEMICOLON {
        match crate::parse_spec::spec_expect(toks, pos, TokenType::EQUAL) {
            Ok((_eq, p1)) => {
                lemma_expr_progress(toks, p1, crate::lookups::PREC::Assignment.spec_value());
            },
            Err(_) => {},
        }
    }
}

/// Every parsed statement consumes at least one token and never passes the
/// end of the sequence: the cursor strictly advances, so the number of
/// statements a parse can produce — and the number of steps it can take —
/// is bounded by the token count.
pub proof fn lemma_stmt_progress(toks: Seq<TokenModel>, pos: int)
    ensures
        (spec_parse_stmt(toks, pos) matches Ok(r) ==> pos < r.1 <= toks.len()),
    decreases toks.len() - pos, 12int,
{
    if 0 <= pos < toks.len() {
        match crate::lookups::spec_stmt_lookup(toks[pos].ttype) {
            Some(crate::lookups::StmtHandler::Block) => {
                lemma_block_progress(toks, pos);
            },
            Some(crate::lookups::StmtHandler::If) => {
                lemma_if_progress(toks, pos);
            },
            Some(crate::lookups::StmtHandler::VarDecl) => {
                lemma_var_decl_progress(toks, pos);
            },
            None => {
                lemma_expr_progress(toks, pos, 0);
            },
        }
    }
}

/// Parsing a whole program rests within the token sequence, and each of
/// its statements took at least one token: the parse of any finite token
/// sequence comes to rest after finitely many steps bounded by the token
/// count. Termination itself is intrinsic — every parsing function
/// carries a `decreases` measure that Verus checks.
pub proof fn lemma_program_progress(toks: Seq<TokenModel>, pos: int)
    requires
        0 <= pos <= toks.len(),
    ensures
        (spec_parse_program(toks, pos) matches Ok(r) ==> {
            &&& pos <= r.1 <= toks.len()
            &&& r.0.len() <= r.1 - pos
        }),
    decreases toks.len() - pos, 14int,
{
    if 0 <= pos < toks.len() && toks[pos].ttype != TokenType::EOF {
        match spec_parse_stmt(toks, pos) {
            Ok((s, p2)) => {
                lemma_stmt_progress(toks, pos);
                let pn = step_pos(toks.len() as int, pos, p2);
                lemma_program_progress(toks, pn);
                match spec_parse_program(toks, pn) {
                    Ok((rest, _p3)) => {
                        assert((seq![s] + rest).len() == 1 + rest.len());
                    },
                    Err(_) => {},
                }
            },
            Err(_) => {},
        }
    }
}

} // verus!

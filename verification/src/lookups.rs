//! The precedence table and the dispatch tables: fixed mappings from token
//! kind to binding power and to prefix, infix, and statement handlers,
//! written as matches over the closed token-kind enumeration.
//!
//! One canonical table is used throughout: assignment binds lowest among the
//! infix forms and takes its right-hand side at the lowest power;
//! exponentiation is right-associative; every other binary operator is
//! left-associative.

use vstd::prelude::*;
use crate::token::TokenType;

verus! {

/// Binding powers, totally ordered from lowest (`DefaultBp`) to highest
/// (`Group`). A token kind absent from the precedence table has the lowest
/// power, so an unrecognised trailing token ends expression parsing instead
/// of failing it.
#[derive(Debug, Clone, Copy, PartialEq, Eq, Structural)]
pub enum PREC {
    DefaultBp,
    Primary,
    Comma,
    Assignment,
    Logical,
    Relational,
    Additive,
    Multiplicative,
    Power,
    Unary,
    Prefix,
    Group,
}

impl PREC {
    /// The numeric rank that orders binding powers.
    pub open spec fn spec_value(self) -> int {
        match self {
            PREC::DefaultBp => 0,
            PREC::Primary => 1,
            PREC::Comma => 2,
            PREC::Assignment => 3,
            PREC::Logical => 4,
            PREC::Relational => 5,
            PREC::Additive => 6,
            PREC::Multiplicative => 7,
            PREC::Power => 8,
            PREC::Unary => 9,
            PREC::Prefix => 10,
            PREC::Group => 11,
        }
    }

    /// The numeric rank, executably.
    pub fn value(self) -> (r: u8)
        ensures
            r as int == self.spec_value(),
    {
        match self {
            PREC::DefaultBp => 0,
            PREC::Primary => 1,
            PREC::Comma => 2,
            PREC::Assignment => 3,
            PREC::Logical => 4,
            PREC::Relational => 5,
            PREC::Additive => 6,
            PREC::Multiplicative => 7,
            PREC::Power => 8,
            PREC::Unary => 9,
            PREC::Prefix => 10,
            PREC::Group => 11,
        }
    }
}

/// The precedence table: the binding power of each token kind that takes
/// part in expression parsing; every other kind has the lowest power.
pub open spec fn spec_bp(kind: TokenType) -> PREC {
    match kind {
        TokenType::EQUAL => PREC::Assignment,
        TokenType::PLUSEQUALS => PREC::Assignment,
        TokenType::MINUSEQUALS => PREC::Assignment,
        TokenType::NUMBER => PREC::Primary,
        TokenType::STRING => PREC::Primary,
        TokenType::IDENTIFIER => PREC::Primary,
        TokenType::AND => PREC::Logical,
        TokenType::OR => PREC::Logical,
        TokenType::EQUALEQUAL => PREC::Relational,
        TokenType::BANGEQUAL => PREC::Relational,
        TokenType::LESS => PREC::Relational,
        TokenType::LESSEQUAL => PREC::Relational,
        TokenType::GREATER => PREC::Relational,
        TokenType::GREATEREQUAL => PREC::Relational,
        TokenType::PLUS => PREC::Additive,
        TokenType::MINUS => PREC::Additive,
        TokenType::STAR => PREC::Multiplicative,
        TokenType::SLASH => PREC::Multiplicative,
        TokenType::MODULO => PREC::Multiplicative,
        TokenType::POW => PREC::Power,
        TokenType::BANG => PREC::Unary,
        TokenType::LEFTPAREN => PREC::Group,
        _ => PREC::DefaultBp,
    }
}

/// Looks a token kind up in the precedence table.
pub fn binding_power(kind: TokenType) -> (r: PREC)
    ensures
        r == spec_bp(kind),
{
    match kind {
        TokenType::EQUAL => PREC::Assignment,
        TokenType::PLUSEQUALS => PREC::Assignment,
        TokenType::MINUSEQUALS => PREC::Assignment,
        TokenType::NUMBER => PREC::Primary,
        TokenType::STRING => PREC::Primary,
        TokenType::IDENTIFIER => PREC::Primary,
        TokenType::AND => PREC::Logical,
        TokenType::OR => PREC::Logical,
        TokenType::EQUALEQUAL => PREC::Relational,
        TokenType::BANGEQUAL => PREC::Relational,
        TokenType::LESS => PREC::Relational,
        TokenType::LESSEQUAL => PREC::Relational,
        TokenType::GREATER => PREC::Relational,
        TokenType::GREATEREQUAL => PREC::Relational,
        TokenType::PLUS => PREC::Additive,
        TokenType::MINUS => PREC::Additive,
        TokenType::STAR => PREC::Multiplicative,
        TokenType::SLASH => PREC::Multiplicative,
        TokenType::MODULO => PREC::Multiplicative,
        TokenType::POW => PREC::Power,
        TokenType::BANG => PREC::Unary,
        TokenType::LEFTPAREN => PREC::Group,
        _ => PREC::DefaultBp,
    }
}

/// Whether an infix operator takes its right-hand side at its own binding
/// power (right-associative) rather than one above it (left-associative).
/// Exponentiation is the one right-associative binary operator; assignment
/// is right-associative through its own handler, which parses the
/// right-hand side at the lowest power.
pub open spec fn spec_right_assoc(kind: TokenType) -> bool {
    kind == TokenType::POW
}

/// Executable twin of [`spec_right_assoc`].
pub fn is_right_assoc(kind: TokenType) -> (r: bool)
    ensures
        r == spec_right_assoc(kind),
{
    kind == TokenType::POW
}

/// A prefix ("nud") handler: parses an expression with no left-hand
/// context.
#[derive(Debug, Clone, Copy, PartialEq, Eq, Structural)]
pub enum NudHandler {
    Number,
    StringLit,
    Ident,
    UnaryOp,
    Grouping,
}

/// An infix ("led") handler: parses an expression given an already-parsed
/// left operand.
#[derive(Debug, Clone, Copy, PartialEq, Eq, Structural)]
pub enum LedHandler {
    Binary,
    Assign,
}

/// A statement handler.
#[derive(Debug, Clone, Copy, PartialEq, Eq, Structural)]
pub enum StmtHandler {
    Block,
    If,
    VarDecl,
}

/// The prefix table: literals, identifiers, the unary-prefix operators, and
/// grouping.
pub open spec fn spec_nud_lookup(kind: TokenType) -> Option<NudHandler> {
    match kind {
        TokenType::NUMBER => Some(NudHandler::Number),
        TokenType::STRING => Some(NudHandler::StringLit),
        TokenType::IDENTIFIER => Some(NudHandler::Ident),
        TokenType::MINUS => Some(NudHandler::UnaryOp),
        TokenType::BANG => Some(NudHandler::UnaryOp),
        TokenType::LEFTPAREN => Some(NudHandler::Grouping),
        _ => None,
    }
}

/// Looks a token kind up in the prefix table.
pub fn nud_lookup(kind: TokenType) -> (r: Option<NudHandler>)
    ensures
        r == spec_nud_lookup(kind),
{
    match kind {
        TokenType::NUMBER => Some(NudHandler::Number),
        TokenType::STRING => Some(NudHandler::StringLit),
        TokenType::IDENTIFIER => Some(NudHandler::Ident),
        TokenType::MINUS => Some(NudHandler::UnaryOp),
        TokenType::BANG => Some(NudHandler::UnaryOp),
        TokenType::LEFTPAREN => Some(NudHandler::Grouping),
        _ => None,
    }
}

/// The infix table: assignment forms, and the logical, relational,
/// additive, multiplicative, and power operators.
pub open spec fn spec_led_lookup(kind: TokenType) -> Option<LedHandler> {
    match kind {
        TokenType::EQUAL => Some(LedHandler::Assign),
        TokenType::PLUSEQUALS => Some(LedHandler::Assign),
        TokenType::MINUSEQUALS => Some(LedHandler::Assign),
        TokenType::AND => Some(LedHandler::Binary),
        TokenType::OR => Some(LedHandler::Binary),
        TokenType::EQUALEQUAL => Some(LedHandler::Binary),
        TokenType::BANGEQUAL => Some(LedHandler::Binary),
        TokenType::GREATER => Some(LedHandler::Binary),
        TokenType::LESS => Some(LedHandler::Binary),
        TokenType::LESSEQUAL => Some(LedHandler::Binary),
        TokenType::GREATEREQUAL => Some(LedHandler::Binary),
        TokenType::PLUS => Some(LedHandler::Binary),
        TokenType::MINUS => Some(LedHandler::Binary),
        TokenType::STAR => Some(LedHandler::Binary),
        TokenType::SLASH => Some(LedHandler::Binary),
        TokenType::MODULO => Some(LedHandler::Binary),
        TokenType::POW => Some(LedHandler::Binary),
        _ => None,
    }
}

/// Looks a token kind up in the infix table.
pub fn led_lookup(kind: TokenType) -> (r: Option<LedHandler>)
    ensures
        r == spec_led_lookup(kind),
{
    match kind {
        TokenType::EQUAL => Some(LedHandler::Assign),
        TokenType::PLUSEQUALS => Some(LedHandler::Assign),
        TokenType::MINUSEQUALS => Some(LedHandler::Assign),
        TokenType::AND => Some(LedHandler::Binary),
        TokenType::OR => Some(LedHandler::Binary),
        TokenType::EQUALEQUAL => Some(LedHandler::Binary),
        TokenType::BANGEQUAL => Some(LedHandler::Binary),
        TokenType::GREATER => Some(LedHandler::Binary),
        TokenType::LESS => Some(LedHandler::Binary),
        TokenType::LESSEQUAL => Some(LedHandler::Binary),
        TokenType::GREATEREQUAL => Some(LedHandler::Binary),
        TokenType::PLUS => Some(LedHandler::Binary),
        TokenType::MINUS => Some(LedHandler::Binary),
        TokenType::STAR => Some(LedHandler::Binary),
        TokenType::SLASH => Some(LedHandler::Binary),
        TokenType::MODULO => Some(LedHandler::Binary),
        TokenType::POW => Some(LedHandler::Binary),
        _ => None,
    }
}

/// The statement table: declarations, block open, and `if`. A kind with no
/// entry falls through to expression-statement parsing.
pub open spec fn spec_stmt_lookup(kind: TokenType) -> Option<StmtHandler> {
    match kind {
        TokenType::LEFTBRACE => Some(StmtHandler::Block),
        TokenType::IF => Some(StmtHandler::If),
        TokenType::LET => Some(StmtHandler::VarDecl),
        TokenType::CONST => Some(StmtHandler::VarDecl),
        _ => None,
    }
}

/// Looks a token kind up in the statement table.
pub fn stmt_lookup(kind: TokenType) -> (r: Option<StmtHandler>)
    ensures
        r == spec_stmt_lookup(kind),
{
    match kind {
        TokenType::LEFTBRACE => Some(StmtHandler::Block),
        TokenType::IF => Some(StmtHandler::If),
        TokenType::LET => Some(StmtHandler::VarDecl),
        TokenType::CONST => Some(StmtHandler::VarDecl),
        _ => None,
    }
}

} // verus!

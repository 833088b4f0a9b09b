//! The abstract syntax tree the parser produces: expression and statement
//! variants, each composite node exclusively owning its sub-trees, together
//! with their spec-level models.

use vstd::prelude::*;
use crate::token::{Token, TokenModel};

verus! {

/// An expression: literals, identifiers, unary and binary operator
/// applications, assignments, and parenthesised groupings.
#[derive(Debug, PartialEq, Eq)]
pub enum Expr {
    NumberLiteral(Vec<char>),
    StringLiteral(Vec<char>),
    Identifier(Vec<char>),
    Unary { op: Token, operand: Box<Expr> },
    BinaryOp { left: Box<Expr>, op: Token, right: Box<Expr> },
    Assignment { target: Box<Expr>, op: Token, value: Box<Expr> },
    Grouping { inner: Box<Expr> },
}

/// Spec-level model of an expression.
pub enum ExprModel {
    NumberLiteral(Seq<char>),
    StringLiteral(Seq<char>),
    Identifier(Seq<char>),
    Unary { op: TokenModel, operand: Box<ExprModel> },
    BinaryOp { left: Box<ExprModel>, op: TokenModel, right: Box<ExprModel> },
    Assignment { target: Box<ExprModel>, op: TokenModel, value: Box<ExprModel> },
    Grouping { inner: Box<ExprModel> },
}

impl Expr {
    /// The spec-level model of this expression.
    pub open spec fn model(self) -> ExprModel
        decreases self,
    {
        match self {
            Expr::NumberLiteral(s) => ExprModel::NumberLiteral(s@),
            Expr::StringLiteral(s) => ExprModel::StringLiteral(s@),
            Expr::Identifier(s) => ExprModel::Identifier(s@),
            Expr::Unary { op, operand } => ExprModel::Unary {
                op: op@,
                operand: Box::new(operand.model()),
            },
            Expr::BinaryOp { left, op, right } => ExprModel::BinaryOp {
                left: Box::new(left.model()),
                op: op@,
                right: Box::new(right.model()),
            },
            Expr::Assignment { target, op, value } => ExprModel::Assignment {
                target: Box::new(target.model()),
                op: op@,
                value: Box::new(value.model()),
            },
            Expr::Grouping { inner } => ExprModel::Grouping { inner: Box::new(inner.model()) },
        }
    }
}

/// A statement: an expression statement, a block, a conditional, or a
/// variable declaration. A `const` declaration always carries an
/// initializer; the parser rejects one without.
#[derive(Debug, PartialEq, Eq)]
pub enum Stmt {
    ExpressionStmt { expr: Expr },
    BlockStmt { body: Vec<Stmt> },
    IfStmt { condition: Expr, consequent: Box<Stmt>, alternate: Option<Box<Stmt>> },
    VarDeclStmt {
        name: Vec<char>,
        is_const: bool,
        declared_type: Option<Token>,
        initializer: Option<Expr>,
    },
}

/// Spec-level model of a statement.
pub enum StmtModel {
    ExpressionStmt { expr: ExprModel },
    BlockStmt { body: Seq<StmtModel> },
    IfStmt { condition: ExprModel, consequent: Box<StmtModel>, alternate: Option<Box<StmtModel>> },
    VarDeclStmt {
        name: Seq<char>,
        is_const: bool,
        declared_type: Option<TokenModel>,
        initializer: Option<ExprModel>,
    },
}

impl Stmt {
    /// The spec-level model of this statement.
    pub open spec fn model(self) -> StmtModel
        decreases self,
    {
        match self {
            Stmt::ExpressionStmt { expr } => StmtModel::ExpressionStmt { expr: expr.model() },
            Stmt::BlockStmt { body } => StmtModel::BlockStmt { body: stmt_models(body@) },
            Stmt::IfStmt { condition, consequent, alternate } => StmtModel::IfStmt {
                condition: condition.model(),
                consequent: Box::new(consequent.model()),
                alternate: match alternate {
                    Some(s) => Some(Box::new(s.model())),
                    None => None,
                },
            },
            Stmt::VarDeclStmt { name, is_const, declared_type, initializer } => {
                StmtModel::VarDeclStmt {
                    name: name@,
                    is_const,
                    declared_type: match declared_type {
                        Some(t) => Some(t@),
                        None => None,
                    },
                    initializer: match initializer {
                        Some(e) => Some(e.model()),
                        None => None,
                    },
                }
            },
        }
    }
}

/// The spec-level models of a statement sequence.
pub open spec fn stmt_models(v: Seq<Stmt>) -> Seq<StmtModel>
    decreases v,
{
    if v.len() == 0 {
        seq![]
    } else {
        seq![v[0].model()] + stmt_models(v.subrange(1, v.len() as int))
    }
}

/// Appending a statement on the right appends its model on the right.
pub proof fn lemma_stmt_models_push(v: Seq<Stmt>, s: Stmt)
    ensures
        stmt_models(v.push(s)) == stmt_models(v).push(s.model()),
    decreases v.len(),
{
    reveal_with_fuel(stmt_models, 3);
    if v.len() == 0 {
        assert(v.push(s).subrange(1, v.push(s).len() as int) =~= Seq::<Stmt>::empty());
        assert(v.push(s)[0] == s);
        assert(stmt_models(v.push(s)) =~= seq![s.model()]);
        assert(stmt_models(v).push(s.model()) =~= seq![s.model()]);
    } else {
        assert(v.push(s).subrange(1, v.push(s).len() as int) =~= v.subrange(
            1,
            v.len() as int,
        ).push(s));
        lemma_stmt_models_push(v.subrange(1, v.len() as int), s);
        assert(stmt_models(v.push(s)) =~= stmt_models(v).push(s.model()));
    }
}

} // verus!

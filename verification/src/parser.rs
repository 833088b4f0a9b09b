//! The executable parser: a stateful cursor over a well-formed token
//! sequence, driving precedence-climbing expression parsing and statement
//! parsing through the dispatch tables of [`crate::lookups`]. Every parsing
//! function is proved to return exactly what the corresponding function of
//! [`crate::parse_spec`] describes, and to advance the cursor on success —
//! so parsing any finite token sequence terminates, which Verus checks
//! through the `decreases` measures over the remaining token count.

use vstd::prelude::*;
use vstd::std_specs::vec::vec_index;
use crate::ast::{lemma_stmt_models_push, stmt_models, Expr, ExprModel, Stmt, StmtModel};
use crate::errors::ParseError;
use crate::helpers::{
    parse_block_stmt, parse_grouping_expr, parse_identifier, parse_if_stmt, parse_num,
    parse_string, parse_unary, parse_var_decl_stmt,
};
use crate::helpers::{parse_assignment_expr, parse_binary_expr};
use crate::lookups::{
    binding_power, led_lookup, nud_lookup, spec_bp, stmt_lookup, LedHandler, NudHandler, PREC,
    StmtHandler,
};
use crate::parse_spec::{
    spec_expect, spec_led_applies, spec_parse_expr, spec_parse_led_loop, spec_parse_program,
    spec_parse_stmt, step_pos,
};
use crate::token::{token_models, wf_token_seq, Token, TokenModel, TokenType};

verus! {

/// A parser over one token sequence: the tokens and a cursor into them.
/// The sequence must be well formed (terminated by exactly one `EOF`), and
/// the cursor never leaves it: parsing stops at the `EOF` token.
pub struct Parser {
    pub tokens: Vec<Token>,
    pub current: usize,
}

/// How an expression-parsing result relates to its spec-level counterpart:
/// on success the spec parse succeeds with the model of the produced tree
/// and the cursor's resting position, and the cursor advanced; on failure
/// the spec parse fails with the same error.
pub open spec fn expr_result_matches(
    spec_r: Result<(ExprModel, int), ParseError>,
    r: Result<Expr, ParseError>,
    prev: Parser,
    cur: Parser,
) -> bool {
    match r {
        Ok(e) => {
            &&& spec_r == Ok::<(ExprModel, int), ParseError>((e.model(), cur.current as int))
            &&& cur.current > prev.current
        },
        Err(pe) => spec_r == Err::<(ExprModel, int), ParseError>(pe),
    }
}

/// [`expr_result_matches`], for statement parsing.
pub open spec fn stmt_result_matches(
    spec_r: Result<(StmtModel, int), ParseError>,
    r: Result<Stmt, ParseError>,
    prev: Parser,
    cur: Parser,
) -> bool {
    match r {
        Ok(s) => {
            &&& spec_r == Ok::<(StmtModel, int), ParseError>((s.model(), cur.current as int))
            &&& cur.current > prev.current
        },
        Err(pe) => spec_r == Err::<(StmtModel, int), ParseError>(pe),
    }
}

impl Parser {
    /// The spec-level views of the parser's tokens.
    pub open spec fn toks(self) -> Seq<TokenModel> {
        token_models(self.tokens@)
    }

    /// The token sequence is well formed and the cursor stays within it.
    pub open spec fn wf(self) -> bool {
        &&& wf_token_seq(self.toks())
        &&& self.current < self.tokens.len()
    }

    /// A parser at the start of a well-formed token sequence.
    pub fn new(tokens: Vec<Token>) -> (p: Parser)
        requires
            wf_token_seq(token_models(tokens@)),
        ensures
            p.wf(),
            p.toks() == token_models(tokens@),
            p.current == 0,
    {
        Parser { tokens, current: 0 }
    }

    /// Whether the cursor stands on the terminating `EOF` token.
    pub fn is_eof(&self) -> (r: bool)
        requires
            self.wf(),
        ensures
            r == (self.toks()[self.current as int].ttype == TokenType::EOF),
    {
        self.at().ttype == TokenType::EOF
    }

    /// The token under the cursor.
    pub fn at(&self) -> (r: &Token)
        requires
            self.wf(),
        ensures
            r@ == self.toks()[self.current as int],
    {
        vec_index(&self.tokens, self.current)
    }

    /// Advances the cursor by one token; at the `EOF` token it stays put.
    pub fn advance(&mut self)
        requires
            old(self).wf(),
        ensures
            final(self).wf(),
            final(self).toks() == old(self).toks(),
            final(self).current == if old(self).toks()[old(self).current as int].ttype
                == TokenType::EOF {
                old(self).current as int
            } else {
                old(self).current + 1
            },
    {
        if !self.is_eof() {
            proof {
                assert(self.toks()[self.toks().len() - 1].ttype == TokenType::EOF);
            }
            self.current = self.current + 1;
        }
    }

    /// Returns (a copy of) the current token and advances.
    pub fn advance_and_get_current(&mut self) -> (r: Token)
        requires
            old(self).wf(),
        ensures
            final(self).wf(),
            final(self).toks() == old(self).toks(),
            r@ == old(self).toks()[old(self).current as int],
            final(self).current == if old(self).toks()[old(self).current as int].ttype
                == TokenType::EOF {
                old(self).current as int
            } else {
                old(self).current + 1
            },
    {
        let current = self.at().clone();
        self.advance();
        current
    }

    /// The binding power of the token under the cursor, or nothing at the
    /// terminating `EOF` token.
    pub fn token_bp(&self) -> (r: Option<PREC>)
        requires
            self.wf(),
        ensures
            r == if self.toks()[self.current as int].ttype == TokenType::EOF {
                Option::<PREC>::None
            } else {
                Some(spec_bp(self.toks()[self.current as int].ttype))
            },
    {
        if self.is_eof() {
            None
        } else {
            Some(binding_power(self.at().ttype))
        }
    }

    /// Requires the token under the cursor to be of the expected kind:
    /// returns it and advances, or reports an `UnexpectedToken` error and
    /// stays put. Parsing aborts on the first such error.
    pub fn expect(&mut self, expected_type: TokenType) -> (r: Result<Token, ParseError>)
        requires
            old(self).wf(),
            expected_type != TokenType::EOF,
        ensures
            final(self).wf(),
            final(self).toks() == old(self).toks(),
            match r {
                Ok(t) => {
                    &&& spec_expect(old(self).toks(), old(self).current as int, expected_type)
                        == Ok::<(TokenModel, int), ParseError>(
                        (t@, final(self).current as int),
                    )
                    &&& final(self).current == old(self).current + 1
                },
                Err(e) => {
                    &&& spec_expect(old(self).toks(), old(self).current as int, expected_type)
                        == Err::<(TokenModel, int), ParseError>(e)
                    &&& final(self).current == old(self).current
                },
            },
    {
        if self.at().ttype == expected_type {
            let t = self.advance_and_get_current();
            Ok(t)
        } else {
            let t = self.at();
            Err(
                ParseError::UnexpectedToken {
                    expected: expected_type,
                    found: t.ttype,
                    line: t.line,
                    column: t.column,
                },
            )
        }
    }

    /// Whether the infix loop continues: the token under the cursor has an
    /// infix handler and binds at least as tightly as `min_bp`.
    fn led_applies(&self, min_bp: u8) -> (r: bool)
        requires
            self.wf(),
        ensures
            r == spec_led_applies(self.toks(), self.current as int, min_bp as int),
    {
        let tt = self.at().ttype;
        match led_lookup(tt) {
            None => false,
            Some(_) => binding_power(tt).value() >= min_bp,
        }
    }

    /// Precedence-climbing expression parsing at an arbitrary numeric
    /// minimum binding power: the prefix handler for the current token
    /// produces the first operand, then infix handlers extend it while the
    /// next token binds at least as tightly.
    #[verifier::loop_isolation(false)]
    pub(crate) fn parse_expr_min(&mut self, min_bp: u8) -> (r: Result<Expr, ParseError>)
        requires
            old(self).wf(),
        ensures
            final(self).wf(),
            final(self).toks() == old(self).toks(),
            expr_result_matches(
                spec_parse_expr(old(self).toks(), old(self).current as int, min_bp as int),
                r,
                *old(self),
                *final(self),
            ),
        decreases old(self).tokens@.len() - old(self).current, 1int,
    {
        let ghost toks0 = old(self).toks();
        let ghost pos0 = old(self).current as int;
        let tt = self.at().ttype;
        let line = self.at().line;
        let column = self.at().column;
        let nud = nud_lookup(tt);
        let mut left: Expr = match nud {
            None => {
                return Err(ParseError::NoPrefixHandler { found: tt, line, column });
            },
            Some(NudHandler::Number) => parse_num(self),
            Some(NudHandler::StringLit) => parse_string(self),
            Some(NudHandler::Ident) => parse_identifier(self),
            Some(NudHandler::UnaryOp) => match parse_unary(self) {
                Ok(e) => e,
                Err(e) => {
                    return Err(e);
                },
            },
            Some(NudHandler::Grouping) => match parse_grouping_expr(self) {
                Ok(e) => e,
                Err(e) => {
                    return Err(e);
                },
            },
        };
        proof {
            assert(step_pos(toks0.len() as int, pos0, self.current as int)
                == self.current as int);
            assert(spec_parse_expr(toks0, pos0, min_bp as int) == spec_parse_led_loop(
                toks0,
                self.current as int,
                left.model(),
                min_bp as int,
            ));
        }
        while self.led_applies(min_bp)
            invariant
                self.wf(),
                self.toks() == toks0,
                pos0 < self.current as int,
                spec_parse_expr(toks0, pos0, min_bp as int) == spec_parse_led_loop(
                    toks0,
                    self.current as int,
                    left.model(),
                    min_bp as int,
                ),
            decreases toks0.len() - self.current,
        {
            let tt2 = self.at().ttype;
            let ghost cur_b = self.current as int;
            let ghost left_b = left.model();
            match led_lookup(tt2) {
                Some(LedHandler::Assign) => {
                    match parse_assignment_expr(self, left) {
                        Ok(e) => {
                            left = e;
                        },
                        Err(e) => {
                            return Err(e);
                        },
                    }
                },
                Some(LedHandler::Binary) => {
                    match parse_binary_expr(self, left) {
                        Ok(e) => {
                            left = e;
                        },
                        Err(e) => {
                            return Err(e);
                        },
                    }
                },
                None => {
                    // Impossible: the loop condition saw an infix handler.
                    proof {
                        assert(false);
                    }
                    return Err(ParseError::NoPrefixHandler { found: tt2, line: 0, column: 0 });
                },
            }
            proof {
                assert(step_pos(toks0.len() as int, cur_b, self.current as int)
                    == self.current as int);
            }
        }
        Ok(left)
    }

    /// Precedence-climbing expression parsing at the given binding power.
    pub fn parse_expr(&mut self, bp: PREC) -> (r: Result<Expr, ParseError>)
        requires
            old(self).wf(),
        ensures
            final(self).wf(),
            final(self).toks() == old(self).toks(),
            expr_result_matches(
                spec_parse_expr(old(self).toks(), old(self).current as int, bp.spec_value()),
                r,
                *old(self),
                *final(self),
            ),
        decreases old(self).tokens@.len() - old(self).current, 2int,
    {
        self.parse_expr_min(bp.value())
    }

    /// One statement: dispatches on the statement table; a kind with no
    /// entry is parsed as an expression statement terminated by `;`.
    pub fn parse_stmt(&mut self) -> (r: Result<Stmt, ParseError>)
        requires
            old(self).wf(),
        ensures
            final(self).wf(),
            final(self).toks() == old(self).toks(),
            stmt_result_matches(
                spec_parse_stmt(old(self).toks(), old(self).current as int),
                r,
                *old(self),
                *final(self),
            ),
        decreases old(self).tokens@.len() - old(self).current, 4int,
    {
        let handler = stmt_lookup(self.at().ttype);
        match handler {
            Some(StmtHandler::Block) => parse_block_stmt(self),
            Some(StmtHandler::If) => parse_if_stmt(self),
            Some(StmtHandler::VarDecl) => parse_var_decl_stmt(self),
            None => {
                let expression = match self.parse_expr(PREC::DefaultBp) {
                    Ok(e) => e,
                    Err(e) => {
                        return Err(e);
                    },
                };
                match self.expect(TokenType::SEMICOLON) {
                    Ok(_) => Ok(Stmt::ExpressionStmt { expr: expression }),
                    Err(e) => Err(e),
                }
            },
        }
    }

    /// The whole program: statements until the terminating `EOF` token.
    /// The first parse error aborts parsing and is returned; on success
    /// the cursor rests on the `EOF` token.
    #[verifier::loop_isolation(false)]
    pub fn parse(&mut self) -> (r: Result<Vec<Stmt>, ParseError>)
        requires
            old(self).wf(),
        ensures
            final(self).wf(),
            final(self).toks() == old(self).toks(),
            match r {
                Ok(v) => spec_parse_program(old(self).toks(), old(self).current as int) == Ok::<
                    (Seq<StmtModel>, int),
                    ParseError,
                >((stmt_models(v@), final(self).current as int)),
                Err(e) => spec_parse_program(old(self).toks(), old(self).current as int) == Err::<
                    (Seq<StmtModel>, int),
                    ParseError,
                >(e),
            },
    {
        let ghost toks0 = old(self).toks();
        let ghost pos0 = old(self).current as int;
        let mut statements: Vec<Stmt> = Vec::new();
        proof {
            assert(stmt_models(statements@) =~= Seq::<StmtModel>::empty());
            match spec_parse_program(toks0, pos0) {
                Ok((rest, pe)) => {
                    assert(stmt_models(statements@) + rest =~= rest);
                },
                Err(_) => {},
            }
        }
        while !self.is_eof()
            invariant
                self.wf(),
                self.toks() == toks0,
                pos0 <= self.current as int,
                spec_parse_program(toks0, pos0) == (match spec_parse_program(
                    toks0,
                    self.current as int,
                ) {
                    Ok((rest, pe)) => Ok::<(Seq<StmtModel>, int), ParseError>(
                        (stmt_models(statements@) + rest, pe),
                    ),
                    Err(e) => Err::<(Seq<StmtModel>, int), ParseError>(e),
                }),
            decreases toks0.len() - self.current,
        {
            let ghost cur_b = self.current as int;
            let ghost stmts_b = statements@;
            match self.parse_stmt() {
                Ok(s) => {
                    proof {
                        lemma_stmt_models_push(stmts_b, s);
                        assert(step_pos(toks0.len() as int, cur_b, self.current as int)
                            == self.current as int);
                        match spec_parse_program(toks0, self.current as int) {
                            Ok((rest, pe)) => {
                                assert(stmt_models(stmts_b) + (seq![s.model()] + rest)
                                    =~= stmt_models(stmts_b.push(s)) + rest);
                            },
                            Err(_) => {},
                        }
                    }
                    statements.push(s);
                },
                Err(e) => {
                    return Err(e);
                },
            }
        }
        proof {
            assert(spec_parse_program(toks0, self.current as int) == Ok::<
                (Seq<StmtModel>, int),
                ParseError,
            >((Seq::<StmtModel>::empty(), self.current as int)));
            assert(stmt_models(statements@) + Seq::<StmtModel>::empty()
                =~= stmt_models(statements@));
        }
        Ok(statements)
    }
}

} // verus!

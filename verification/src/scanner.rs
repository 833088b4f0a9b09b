//! The executable scanner: a single left-to-right pass over a character
//! sequence, proved to produce exactly the tokens that
//! [`crate::scan_spec::spec_scan_tokens`] describes.

use vstd::prelude::*;
use crate::errors::ScanError;
use crate::scan_spec::{
    digits_end, ident_end, lemma_advance_pos_snoc, lemma_scan_from_no_eof, lemma_scan_while,
    lemma_stitch_empty, lemma_stitch_push, line_comment_end, single_tok, spec_advance_pos,
    spec_scan_from, spec_scan_tokens, stitch, string_close, two_char_kinds, ScanResult,
};
use crate::token::{
    copy_range, is_alnum_char, is_alpha_char, is_digit_char, keyword_lookup, spec_keyword,
    token_models, wf_token_seq, Object, ObjectModel, Token, TokenModel, TokenType,
};

verus! {

/// A scanner over one source unit. It owns its cursor (`position`), the
/// line/column bookkeeping (`line`, `offset`), and the tokens produced so
/// far; `file_name` names the source unit for diagnostics only.
pub struct Scanner {
    pub source: Vec<char>,
    pub tokens: Vec<Token>,
    pub position: usize,
    pub offset: usize,
    pub line: usize,
    pub file_name: String,
}

impl Scanner {
    /// The scanner's cursor and bookkeeping stay within the source.
    pub open spec fn wf(self) -> bool {
        &&& self.position <= self.source.len()
        &&& self.line <= self.position
        &&& self.offset <= self.position
    }

    /// The views of the tokens produced so far.
    pub open spec fn toks(self) -> Seq<TokenModel> {
        token_models(self.tokens@)
    }

    /// A scanner at the start of `source`, with no tokens produced yet.
    pub fn new(source: Vec<char>, file_name: String) -> (s: Scanner)
        ensures
            s.wf(),
            s.source@ == source@,
            s.tokens@.len() == 0,
            s.position == 0,
            s.line == 0,
            s.offset == 0,
    {
        Scanner { source, tokens: Vec::new(), position: 0, line: 0, offset: 0, file_name }
    }

    /// Whether the cursor has passed the last source character.
    fn is_eof(&self) -> (r: bool)
        ensures
            r == (self.position >= self.source@.len()),
    {
        self.position >= self.source.len()
    }

    /// The character under the cursor, or a space at end of input.
    fn at(&self) -> (r: char)
        requires
            self.wf(),
        ensures
            r == if self.position < self.source@.len() {
                self.source@[self.position as int]
            } else {
                ' '
            },
    {
        if self.is_eof() {
            ' '
        } else {
            self.source[self.position]
        }
    }

    /// Whether the character after the cursor exists and equals `c`.
    fn peek(&self, c: char) -> (r: bool)
        requires
            self.wf(),
            self.position < self.source@.len(),
        ensures
            r == (self.position + 1 < self.source@.len()
                && self.source@[self.position + 1] == c),
    {
        self.position + 1 < self.source.len() && self.source[self.position + 1] == c
    }

    /// Consumes one character, advancing the cursor and the column.
    fn next(&mut self) -> (r: Option<char>)
        requires
            old(self).wf(),
        ensures
            final(self).wf(),
            final(self).source@ == old(self).source@,
            final(self).tokens@ == old(self).tokens@,
            final(self).line == old(self).line,
            if old(self).position < old(self).source@.len() {
                &&& r == Some(old(self).source@[old(self).position as int])
                &&& final(self).position == old(self).position + 1
                &&& final(self).offset == old(self).offset + 1
            } else {
                &&& r is None
                &&& final(self).position == old(self).position
                &&& final(self).offset == old(self).offset
            },
    {
        if self.is_eof() {
            None
        } else {
            self.offset = self.offset + 1;
            let c = self.source[self.position];
            self.position = self.position + 1;
            Some(c)
        }
    }

    /// Skips one character that produces no token and is no newline.
    fn empty_next(&mut self)
        requires
            old(self).wf(),
            old(self).position < old(self).source@.len(),
        ensures
            final(self).wf(),
            final(self).source@ == old(self).source@,
            final(self).tokens@ == old(self).tokens@,
            final(self).line == old(self).line,
            final(self).position == old(self).position + 1,
            final(self).offset == old(self).offset + 1,
    {
        self.position = self.position + 1;
        self.offset = self.offset + 1;
    }

    /// Consumes a newline: advances the cursor, moves to the next line, and
    /// resets the column.
    fn next_line(&mut self)
        requires
            old(self).wf(),
            old(self).position < old(self).source@.len(),
        ensures
            final(self).wf(),
            final(self).source@ == old(self).source@,
            final(self).tokens@ == old(self).tokens@,
            final(self).position == old(self).position + 1,
            final(self).line == old(self).line + 1,
            final(self).offset == 0,
    {
        self.position = self.position + 1;
        self.offset = 0;
        self.line = self.line + 1;
    }

    /// Emits a one-character token of the given kind and consumes that
    /// character.
    fn add_token(&mut self, token_type: TokenType)
        requires
            old(self).wf(),
            old(self).position < old(self).source@.len(),
        ensures
            final(self).wf(),
            final(self).source@ == old(self).source@,
            final(self).toks() == old(self).toks().push(
                single_tok(
                    old(self).source@[old(self).position as int],
                    token_type,
                    old(self).line as int,
                    old(self).offset as int,
                ),
            ),
            final(self).position == old(self).position + 1,
            final(self).offset == old(self).offset + 1,
            final(self).line == old(self).line,
    {
        let line = self.line;
        let column = self.offset;
        let value = self.next();
        let c = match value {
            Some(c) => c,
            None => ' ',  // unreachable: the cursor is within the source
        };
        let mut lexeme: Vec<char> = Vec::new();
        lexeme.push(c);
        proof {
            assert(lexeme@ =~= seq![old(self).source@[old(self).position as int]]);
        }
        self.tokens.push(Token::new(token_type, lexeme, Object::Nil, line, column));
        proof {
            assert(self.toks() =~= old(self).toks().push(
                single_tok(
                    old(self).source@[old(self).position as int],
                    token_type,
                    old(self).line as int,
                    old(self).offset as int,
                ),
            ));
        }
    }

    /// Emits the compound kind (consuming two characters) when the character
    /// after the cursor equals `compare`, else the simple kind (consuming
    /// one).
    fn add_conditional_token(
        &mut self,
        compare: char,
        token_type_true: TokenType,
        token_type_false: TokenType,
    )
        requires
            old(self).wf(),
            old(self).position < old(self).source@.len(),
        ensures
            final(self).wf(),
            final(self).source@ == old(self).source@,
            final(self).line == old(self).line,
            if old(self).position + 1 < old(self).source@.len()
                && old(self).source@[old(self).position + 1] == compare {
                &&& final(self).toks() == old(self).toks().push(
                    (TokenModel {
                        ttype: token_type_true,
                        lexeme: seq![
                            old(self).source@[old(self).position as int],
                            compare,
                        ],
                        literal: ObjectModel::Nil,
                        line: old(self).line as int,
                        column: old(self).offset as int,
                    }),
                )
                &&& final(self).position == old(self).position + 2
                &&& final(self).offset == old(self).offset + 2
            } else {
                &&& final(self).toks() == old(self).toks().push(
                    single_tok(
                        old(self).source@[old(self).position as int],
                        token_type_false,
                        old(self).line as int,
                        old(self).offset as int,
                    ),
                )
                &&& final(self).position == old(self).position + 1
                &&& final(self).offset == old(self).offset + 1
            },
    {
        if self.peek(compare) {
            let line = self.line;
            let column = self.offset;
            let c1 = match self.next() {
                Some(c) => c,
                None => ' ',  // unreachable: the cursor is within the source
            };
            let c2 = match self.next() {
                Some(c) => c,
                None => ' ',  // unreachable: one more character was peeked
            };
            let mut lexeme: Vec<char> = Vec::new();
            lexeme.push(c1);
            lexeme.push(c2);
            proof {
                assert(lexeme@ =~= seq![old(self).source@[old(self).position as int], compare]);
            }
            self.tokens.push(Token::new(token_type_true, lexeme, Object::Nil, line, column));
            proof {
                assert(self.toks() =~= old(self).toks().push(
                    (TokenModel {
                        ttype: token_type_true,
                        lexeme: seq![
                            old(self).source@[old(self).position as int],
                            compare,
                        ],
                        literal: ObjectModel::Nil,
                        line: old(self).line as int,
                        column: old(self).offset as int,
                    }),
                ));
            }
        } else {
            self.add_token(token_type_false);
        }
    }

    /// Emits a token carrying literal text: a string, number, or identifier.
    fn add_string_token(
        &mut self,
        object_type: Object,
        tok_type: TokenType,
        value: Vec<char>,
        line: usize,
        column: usize,
    )
        requires
            old(self).wf(),
        ensures
            final(self).wf(),
            final(self).source@ == old(self).source@,
            final(self).position == old(self).position,
            final(self).offset == old(self).offset,
            final(self).line == old(self).line,
            final(self).toks() == old(self).toks().push(
                (TokenModel {
                    ttype: tok_type,
                    lexeme: value@,
                    literal: object_type@,
                    line: line as int,
                    column: column as int,
                }),
            ),
    {
        let ghost value_model = value@;
        let ghost object_model = object_type@;
        self.tokens.push(Token::new(tok_type, value, object_type, line, column));
        proof {
            assert(self.toks() =~= old(self).toks().push(
                (TokenModel {
                    ttype: tok_type,
                    lexeme: value_model,
                    literal: object_model,
                    line: line as int,
                    column: column as int,
                }),
            ));
        }
    }

    /// Handles a `/`: a second `/` starts a line comment, consumed through
    /// the end of the line (including the newline, when there is one);
    /// otherwise a division token is emitted.
    fn check_for_comments(&mut self)
        requires
            old(self).wf(),
            old(self).position < old(self).source@.len(),
            old(self).source@[old(self).position as int] == '/',
        ensures
            final(self).wf(),
            final(self).source@ == old(self).source@,
            final(self).position > old(self).position,
            if old(self).position + 1 < old(self).source@.len()
                && old(self).source@[old(self).position + 1] == '/' {
                ({
                    let e = line_comment_end(old(self).source@, old(self).position + 2);
                    &&& final(self).tokens@ == old(self).tokens@
                    &&& if e < old(self).source@.len() {
                        &&& final(self).position == e + 1
                        &&& final(self).line == old(self).line + 1
                        &&& final(self).offset == 0
                    } else {
                        &&& final(self).position == old(self).source@.len()
                        &&& final(self).line == old(self).line
                        &&& final(self).offset == old(self).offset + (e - old(self).position)
                    }
                })
            } else {
                &&& final(self).toks() == old(self).toks().push(
                    single_tok(
                        '/',
                        TokenType::SLASH,
                        old(self).line as int,
                        old(self).offset as int,
                    ),
                )
                &&& final(self).position == old(self).position + 1
                &&& final(self).offset == old(self).offset + 1
                &&& final(self).line == old(self).line
            },
    {
        let ghost src = self.source@;
        let ghost pos0 = self.position as int;
        let ghost line0 = self.line;
        let ghost col0 = self.offset;
        if self.peek('/') {
            self.empty_next();
            self.empty_next();
            while !self.is_eof() && self.at() != '\n'
                invariant
                    self.wf(),
                    self.source@ == src,
                    self.tokens@ == old(self).tokens@,
                    self.line == line0,
                    pos0 + 2 <= self.position <= src.len(),
                    line_comment_end(src, pos0 + 2) == line_comment_end(
                        src,
                        self.position as int,
                    ),
                    self.offset == col0 + (self.position - pos0),
                decreases src.len() - self.position,
            {
                self.empty_next();
            }
            proof {
                assert(line_comment_end(src, self.position as int) == self.position as int);
            }
            if !self.is_eof() {
                self.next_line();
            }
        } else {
            self.add_token(TokenType::SLASH);
        }
    }

    /// Scans a string literal: the opening quote was seen under the cursor.
    /// Consumes through the closing quote and emits a `STRING` token whose
    /// lexeme and literal are the text between the quotes; embedded newlines
    /// advance the line bookkeeping. Reaching end of input first is an
    /// `UnterminatedString` error at the opening quote's position.
    fn string(&mut self) -> (r: Result<(), ScanError>)
        requires
            old(self).wf(),
            old(self).position < old(self).source@.len(),
            old(self).source@[old(self).position as int] == '"',
        ensures
            final(self).wf(),
            final(self).source@ == old(self).source@,
            final(self).position > old(self).position,
            ({
                let src = old(self).source@;
                let pos0 = old(self).position as int;
                let close = string_close(src, pos0 + 1);
                if close < src.len() {
                    &&& r is Ok
                    &&& final(self).toks() == old(self).toks().push(
                        (TokenModel {
                            ttype: TokenType::STRING,
                            lexeme: src.subrange(pos0 + 1, close),
                            literal: ObjectModel::Str(src.subrange(pos0 + 1, close)),
                            line: old(self).line as int,
                            column: old(self).offset as int,
                        }),
                    )
                    &&& final(self).position == close + 1
                    &&& (final(self).line as int, final(self).offset as int)
                        == spec_advance_pos(
                        src,
                        pos0,
                        close + 1,
                        old(self).line as int,
                        old(self).offset as int,
                    )
                } else {
                    &&& r == Err::<(), ScanError>(
                        ScanError::UnterminatedString {
                            line: old(self).line,
                            column: old(self).offset,
                        },
                    )
                    &&& final(self).tokens@ == old(self).tokens@
                    &&& final(self).position == src.len()
                    &&& (final(self).line as int, final(self).offset as int)
                        == spec_advance_pos(
                        src,
                        pos0,
                        src.len() as int,
                        old(self).line as int,
                        old(self).offset as int,
                    )
                }
            }),
    {
        let ghost src = self.source@;
        let start_pos = self.position;
        let start_line = self.line;
        let start_col = self.offset;
        proof {
            lemma_advance_pos_snoc(src, start_pos as int, start_pos as int, start_line as int,
                start_col as int);
        }
        self.empty_next();
        while !self.is_eof() && self.at() != '"'
            invariant
                self.wf(),
                self.source@ == src,
                self.tokens@ == old(self).tokens@,
                start_pos as int + 1 <= self.position <= src.len(),
                src[start_pos as int] == '"',
                string_close(src, start_pos as int + 1) == string_close(
                    src,
                    self.position as int,
                ),
                (self.line as int, self.offset as int) == spec_advance_pos(
                    src,
                    start_pos as int,
                    self.position as int,
                    start_line as int,
                    start_col as int,
                ),
            decreases src.len() - self.position,
        {
            let ghost pb = self.position as int;
            if self.at() == '\n' {
                self.next_line();
            } else {
                self.empty_next();
            }
            proof {
                lemma_advance_pos_snoc(src, start_pos as int, pb, start_line as int,
                    start_col as int);
            }
        }
        if self.is_eof() {
            proof {
                assert(string_close(src, self.position as int) == src.len());
            }
            Err(ScanError::UnterminatedString { line: start_line, column: start_col })
        } else {
            proof {
                assert(string_close(src, self.position as int) == self.position as int);
            }
            let close_pos = self.position;
            let ghost pb = self.position as int;
            self.empty_next();
            proof {
                lemma_advance_pos_snoc(src, start_pos as int, pb, start_line as int,
                    start_col as int);
            }
            let value = copy_range(&self.source, start_pos + 1, close_pos);
            let text = copy_range(&self.source, start_pos + 1, close_pos);
            self.add_string_token(Object::Str(value), TokenType::STRING, text, start_line,
                start_col);
            Ok(())
        }
    }

    /// Scans a number literal: a maximal digit run, optionally followed by a
    /// decimal point and another maximal digit run. A decimal point not
    /// followed by a digit is an `InvalidNumber` error at the literal's
    /// first character.
    fn number(&mut self) -> (r: Result<(), ScanError>)
        requires
            old(self).wf(),
            old(self).position < old(self).source@.len(),
            is_digit_char(old(self).source@[old(self).position as int]),
        ensures
            final(self).wf(),
            final(self).source@ == old(self).source@,
            final(self).position > old(self).position,
            final(self).line == old(self).line,
            ({
                let src = old(self).source@;
                let pos0 = old(self).position as int;
                let ie = digits_end(src, pos0 + 1);
                if ie < src.len() && src[ie] == '.' {
                    if ie + 1 < src.len() && is_digit_char(src[ie + 1]) {
                        ({
                            let fe = digits_end(src, ie + 2);
                            &&& r is Ok
                            &&& final(self).toks() == old(self).toks().push(
                                (TokenModel {
                                    ttype: TokenType::NUMBER,
                                    lexeme: src.subrange(pos0, fe),
                                    literal: ObjectModel::Num(src.subrange(pos0, fe)),
                                    line: old(self).line as int,
                                    column: old(self).offset as int,
                                }),
                            )
                            &&& final(self).position == fe
                            &&& final(self).offset == old(self).offset + (fe - pos0)
                        })
                    } else {
                        &&& r == Err::<(), ScanError>(
                            ScanError::InvalidNumber {
                                line: old(self).line,
                                column: old(self).offset,
                            },
                        )
                        &&& final(self).tokens@ == old(self).tokens@
                        &&& final(self).position == ie
                        &&& final(self).offset == old(self).offset + (ie - pos0)
                    }
                } else {
                    &&& r is Ok
                    &&& final(self).toks() == old(self).toks().push(
                        (TokenModel {
                            ttype: TokenType::NUMBER,
                            lexeme: src.subrange(pos0, ie),
                            literal: ObjectModel::Num(src.subrange(pos0, ie)),
                            line: old(self).line as int,
                            column: old(self).offset as int,
                        }),
                    )
                    &&& final(self).position == ie
                    &&& final(self).offset == old(self).offset + (ie - pos0)
                }
            }),
    {
        let ghost src = self.source@;
        let start_pos = self.position;
        let start_col = self.offset;
        self.empty_next();
        while !self.is_eof() && self.is_digit(self.at())
            invariant
                self.wf(),
                self.source@ == src,
                self.tokens@ == old(self).tokens@,
                self.line == old(self).line,
                start_pos as int + 1 <= self.position <= src.len(),
                digits_end(src, start_pos as int + 1) == digits_end(src, self.position as int),
                self.offset == start_col + (self.position - start_pos),
            decreases src.len() - self.position,
        {
            self.empty_next();
        }
        proof {
            assert(digits_end(src, self.position as int) == self.position as int);
        }
        if !self.is_eof() && self.at() == '.' {
            let has_next_digit = self.position + 1 < self.source.len() && {
                let d = self.source[self.position + 1];
                self.is_digit(d)
            };
            if has_next_digit {
                self.empty_next();
                self.empty_next();
                let ghost dot = digits_end(src, start_pos as int + 1);
                while !self.is_eof() && self.is_digit(self.at())
                    invariant
                        self.wf(),
                        self.source@ == src,
                        self.tokens@ == old(self).tokens@,
                        self.line == old(self).line,
                        dot + 2 <= self.position <= src.len(),
                        digits_end(src, dot + 2) == digits_end(src, self.position as int),
                        self.offset == start_col + (self.position - start_pos),
                    decreases src.len() - self.position,
                {
                    self.empty_next();
                }
                proof {
                    assert(digits_end(src, self.position as int) == self.position as int);
                }
            } else {
                return Err(ScanError::InvalidNumber { line: self.line, column: start_col });
            }
        }
        let end_pos = self.position;
        let text = copy_range(&self.source, start_pos, end_pos);
        let value = copy_range(&self.source, start_pos, end_pos);
        let line = self.line;
        self.add_string_token(Object::Num(value), TokenType::NUMBER, text, line, start_col);
        Ok(())
    }

    /// Scans an identifier: a maximal run of letters, digits, and
    /// underscores, looked up in the keyword table. `true` and `false` carry
    /// boolean literal values; everything else carries no literal.
    fn identifier(&mut self)
        requires
            old(self).wf(),
            old(self).position < old(self).source@.len(),
            is_alpha_char(old(self).source@[old(self).position as int]),
        ensures
            final(self).wf(),
            final(self).source@ == old(self).source@,
            final(self).position > old(self).position,
            final(self).line == old(self).line,
            ({
                let src = old(self).source@;
                let pos0 = old(self).position as int;
                let e = ident_end(src, pos0 + 1);
                let text = src.subrange(pos0, e);
                let kind = match spec_keyword(text) {
                    Some(k) => k,
                    None => TokenType::IDENTIFIER,
                };
                let lit = if kind == TokenType::TRUE {
                    ObjectModel::Bool(true)
                } else if kind == TokenType::FALSE {
                    ObjectModel::Bool(false)
                } else {
                    ObjectModel::Nil
                };
                &&& final(self).toks() == old(self).toks().push(
                    (TokenModel {
                        ttype: kind,
                        lexeme: text,
                        literal: lit,
                        line: old(self).line as int,
                        column: old(self).offset as int,
                    }),
                )
                &&& final(self).position == e
                &&& final(self).offset == old(self).offset + (e - pos0)
            }),
    {
        let ghost src = self.source@;
        let start_pos = self.position;
        let start_col = self.offset;
        self.empty_next();
        while !self.is_eof() && self.is_alpha_numeric(self.at())
            invariant
                self.wf(),
                self.source@ == src,
                self.tokens@ == old(self).tokens@,
                self.line == old(self).line,
                start_pos as int + 1 <= self.position <= src.len(),
                ident_end(src, start_pos as int + 1) == ident_end(src, self.position as int),
                self.offset == start_col + (self.position - start_pos),
            decreases src.len() - self.position,
        {
            self.empty_next();
        }
        proof {
            assert(ident_end(src, self.position as int) == self.position as int);
        }
        let end_pos = self.position;
        let text = copy_range(&self.source, start_pos, end_pos);
        let kind = match keyword_lookup(&text) {
            Some(k) => k,
            None => TokenType::IDENTIFIER,
        };
        let lit = if kind == TokenType::TRUE {
            Object::Bool(true)
        } else if kind == TokenType::FALSE {
            Object::Bool(false)
        } else {
            Object::Nil
        };
        let line = self.line;
        self.add_string_token(lit, kind, text, line, start_col);
    }

    /// A decimal digit.
    fn is_digit(&self, c: char) -> (r: bool)
        ensures
            r == is_digit_char(c),
    {
        let u = c as u32;
        ('0' as u32) <= u && u <= ('9' as u32)
    }

    /// An ASCII letter or underscore.
    fn is_alpha(&self, c: char) -> (r: bool)
        ensures
            r == is_alpha_char(c),
    {
        let u = c as u32;
        (('a' as u32) <= u && u <= ('z' as u32)) || (('A' as u32) <= u && u <= ('Z' as u32))
            || c == '_'
    }

    /// A letter, digit, or underscore.
    fn is_alpha_numeric(&self, c: char) -> (r: bool)
        ensures
            r == is_alnum_char(c),
    {
        self.is_alpha(c) || self.is_digit(c)
    }

    /// One dispatch step on the character under the cursor: emits at most
    /// one token (or skips whitespace, a newline, or a comment) and advances
    /// the cursor, or stops with a lexical error. The step is proved to
    /// carry [`spec_scan_from`] forward: the tokens produced so far plus
    /// what scanning the rest yields stay one and the same scan result.
    fn scan_token(&mut self) -> (r: Result<(), ScanError>)
        requires
            old(self).wf(),
            old(self).position < old(self).source@.len(),
        ensures
            final(self).wf(),
            final(self).source@ == old(self).source@,
            final(self).position >= old(self).position,
            match r {
                Ok(_) => {
                    &&& final(self).position > old(self).position
                    &&& stitch(
                        old(self).toks(),
                        spec_scan_from(
                            old(self).source@,
                            old(self).position as int,
                            old(self).line as int,
                            old(self).offset as int,
                        ),
                    ) == stitch(
                        final(self).toks(),
                        spec_scan_from(
                            final(self).source@,
                            final(self).position as int,
                            final(self).line as int,
                            final(self).offset as int,
                        ),
                    )
                },
                Err(e) => {
                    spec_scan_from(
                        old(self).source@,
                        old(self).position as int,
                        old(self).line as int,
                        old(self).offset as int,
                    ) == (ScanResult {
                        tokens: final(self).toks().skip(old(self).toks().len() as int),
                        error: Some(e),
                        line: final(self).line as int,
                        column: final(self).offset as int,
                    }) && final(self).toks() == old(self).toks()
                },
            },
    {
        let ghost src = self.source@;
        let ghost pos0 = self.position as int;
        let ghost line0 = self.line as int;
        let ghost col0 = self.offset as int;
        let ghost pending = spec_scan_from(src, pos0, line0, col0);
        let ghost toks0 = self.toks();
        let c = self.at();
        if c == '\n' {
            self.next_line();
            Ok(())
        } else if c == ' ' || c == '\r' {
            self.empty_next();
            Ok(())
        } else if c == '(' {
            self.add_token(TokenType::LEFTPAREN);
            proof {
                lemma_stitch_push(toks0, single_tok(c, TokenType::LEFTPAREN, line0, col0),
                    spec_scan_from(src, pos0 + 1, line0, col0 + 1));
            }
            Ok(())
        } else if c == ')' {
            self.add_token(TokenType::RIGHTPAREN);
            proof {
                lemma_stitch_push(toks0, single_tok(c, TokenType::RIGHTPAREN, line0, col0),
                    spec_scan_from(src, pos0 + 1, line0, col0 + 1));
            }
            Ok(())
        } else if c == '{' {
            self.add_token(TokenType::LEFTBRACE);
            proof {
                lemma_stitch_push(toks0, single_tok(c, TokenType::LEFTBRACE, line0, col0),
                    spec_scan_from(src, pos0 + 1, line0, col0 + 1));
            }
            Ok(())
        } else if c == '}' {
            self.add_token(TokenType::RIGHTBRACE);
            proof {
                lemma_stitch_push(toks0, single_tok(c, TokenType::RIGHTBRACE, line0, col0),
                    spec_scan_from(src, pos0 + 1, line0, col0 + 1));
            }
            Ok(())
        } else if c == ':' {
            self.add_token(TokenType::COLON);
            proof {
                lemma_stitch_push(toks0, single_tok(c, TokenType::COLON, line0, col0),
                    spec_scan_from(src, pos0 + 1, line0, col0 + 1));
            }
            Ok(())
        } else if c == ',' {
            self.add_token(TokenType::COMMA);
            proof {
                lemma_stitch_push(toks0, single_tok(c, TokenType::COMMA, line0, col0),
                    spec_scan_from(src, pos0 + 1, line0, col0 + 1));
            }
            Ok(())
        } else if c == '.' {
            self.add_token(TokenType::DOT);
            proof {
                lemma_stitch_push(toks0, single_tok(c, TokenType::DOT, line0, col0),
                    spec_scan_from(src, pos0 + 1, line0, col0 + 1));
            }
            Ok(())
        } else if c == ';' {
            self.add_token(TokenType::SEMICOLON);
            proof {
                lemma_stitch_push(toks0, single_tok(c, TokenType::SEMICOLON, line0, col0),
                    spec_scan_from(src, pos0 + 1, line0, col0 + 1));
            }
            Ok(())
        } else if c == '*' {
            self.add_token(TokenType::STAR);
            proof {
                lemma_stitch_push(toks0, single_tok(c, TokenType::STAR, line0, col0),
                    spec_scan_from(src, pos0 + 1, line0, col0 + 1));
            }
            Ok(())
        } else if c == '%' {
            self.add_token(TokenType::MODULO);
            proof {
                lemma_stitch_push(toks0, single_tok(c, TokenType::MODULO, line0, col0),
                    spec_scan_from(src, pos0 + 1, line0, col0 + 1));
            }
            Ok(())
        } else if c == '^' {
            self.add_token(TokenType::POW);
            proof {
                lemma_stitch_push(toks0, single_tok(c, TokenType::POW, line0, col0),
                    spec_scan_from(src, pos0 + 1, line0, col0 + 1));
            }
            Ok(())
        } else if c == '+' {
            self.add_conditional_token('=', TokenType::PLUSEQUALS, TokenType::PLUS);
            proof {
                self.lemma_two_char_stitch(*old(self), c, TokenType::PLUS, TokenType::PLUSEQUALS);
            }
            Ok(())
        } else if c == '-' {
            self.add_conditional_token('=', TokenType::MINUSEQUALS, TokenType::MINUS);
            proof {
                self.lemma_two_char_stitch(*old(self), c, TokenType::MINUS,
                    TokenType::MINUSEQUALS);
            }
            Ok(())
        } else if c == '!' {
            self.add_conditional_token('=', TokenType::BANGEQUAL, TokenType::BANG);
            proof {
                self.lemma_two_char_stitch(*old(self), c, TokenType::BANG, TokenType::BANGEQUAL);
            }
            Ok(())
        } else if c == '=' {
            self.add_conditional_token('=', TokenType::EQUALEQUAL, TokenType::EQUAL);
            proof {
                self.lemma_two_char_stitch(*old(self), c, TokenType::EQUAL,
                    TokenType::EQUALEQUAL);
            }
            Ok(())
        } else if c == '<' {
            self.add_conditional_token('=', TokenType::LESSEQUAL, TokenType::LESS);
            proof {
                self.lemma_two_char_stitch(*old(self), c, TokenType::LESS, TokenType::LESSEQUAL);
            }
            Ok(())
        } else if c == '>' {
            self.add_conditional_token('=', TokenType::GREATEREQUAL, TokenType::GREATER);
            proof {
                self.lemma_two_char_stitch(*old(self), c, TokenType::GREATER,
                    TokenType::GREATEREQUAL);
            }
            Ok(())
        } else if c == '/' {
            self.check_for_comments();
            proof {
                if pos0 + 1 < src.len() && src[pos0 + 1] == '/' {
                    let e = line_comment_end(src, pos0 + 2);
                    lemma_scan_while(src, pos0 + 2, |ch: char| ch != '\n');
                    if e < src.len() {
                        assert(pending == spec_scan_from(src, e + 1, line0 + 1, 0));
                    } else {
                        assert(self.toks() =~= toks0 + pending.tokens);
                    }
                } else {
                    lemma_stitch_push(toks0, single_tok(c, TokenType::SLASH, line0, col0),
                        spec_scan_from(src, pos0 + 1, line0, col0 + 1));
                }
            }
            Ok(())
        } else if c == '"' {
            let res = self.string();
            proof {
                lemma_scan_while(src, pos0 + 1, |ch: char| ch != '"');
                let close = string_close(src, pos0 + 1);
                if close < src.len() {
                    let text = src.subrange(pos0 + 1, close);
                    let after = spec_advance_pos(src, pos0, close + 1, line0, col0);
                    lemma_stitch_push(toks0,
                        (TokenModel {
                            ttype: TokenType::STRING,
                            lexeme: text,
                            literal: ObjectModel::Str(text),
                            line: line0,
                            column: col0,
                        }), spec_scan_from(src, close + 1, after.0, after.1));
                } else {
                    assert(self.toks().skip(toks0.len() as int) =~= pending.tokens);
                }
            }
            match res {
                Ok(()) => Ok(()),
                Err(e) => Err(e),
            }
        } else {
            let digit = self.is_digit(c);
            let alpha = self.is_alpha(c);
            if digit {
                let res = self.number();
                proof {
                    lemma_scan_while(src, pos0 + 1, |ch: char| is_digit_char(ch));
                    let ie = digits_end(src, pos0 + 1);
                    if ie < src.len() && src[ie] == '.' {
                        if ie + 1 < src.len() && is_digit_char(src[ie + 1]) {
                            lemma_scan_while(src, ie + 2, |ch: char| is_digit_char(ch));
                            let fe = digits_end(src, ie + 2);
                            let text = src.subrange(pos0, fe);
                            lemma_stitch_push(toks0,
                                (TokenModel {
                                    ttype: TokenType::NUMBER,
                                    lexeme: text,
                                    literal: ObjectModel::Num(text),
                                    line: line0,
                                    column: col0,
                                }), spec_scan_from(src, fe, line0, col0 + (fe - pos0)));
                        } else {
                            assert(self.toks().skip(toks0.len() as int) =~= pending.tokens);
                        }
                    } else {
                        let text = src.subrange(pos0, ie);
                        lemma_stitch_push(toks0,
                            (TokenModel {
                                ttype: TokenType::NUMBER,
                                lexeme: text,
                                literal: ObjectModel::Num(text),
                                line: line0,
                                column: col0,
                            }), spec_scan_from(src, ie, line0, col0 + (ie - pos0)));
                    }
                }
                match res {
                    Ok(()) => Ok(()),
                    Err(e) => Err(e),
                }
            } else if alpha {
                self.identifier();
                proof {
                    lemma_scan_while(src, pos0 + 1, |ch: char| is_alnum_char(ch));
                    let e = ident_end(src, pos0 + 1);
                    let text = src.subrange(pos0, e);
                    let kind = match spec_keyword(text) {
                        Some(k) => k,
                        None => TokenType::IDENTIFIER,
                    };
                    let lit = if kind == TokenType::TRUE {
                        ObjectModel::Bool(true)
                    } else if kind == TokenType::FALSE {
                        ObjectModel::Bool(false)
                    } else {
                        ObjectModel::Nil
                    };
                    lemma_stitch_push(toks0,
                        (TokenModel { ttype: kind, lexeme: text, literal: lit, line: line0,
                            column: col0 }), spec_scan_from(src, e, line0, col0 + (e - pos0)));
                }
                Ok(())
            } else {
                proof {
                    assert(self.toks().skip(toks0.len() as int) =~= pending.tokens);
                }
                Err(ScanError::UnexpectedCharacter { line: self.line, column: self.offset,
                    found: c })
            }
        }
    }

    /// The stitch equation for a character that may pair with a following
    /// `=`, shared by the six such dispatch cases.
    proof fn lemma_two_char_stitch(
        &self,
        prev: Scanner,
        c: char,
        simple: TokenType,
        compound: TokenType,
    )
        requires
            prev.wf(),
            prev.position < prev.source@.len(),
            prev.source@[prev.position as int] == c,
            two_char_kinds(c) == Some((simple, compound)),
            self.source@ == prev.source@,
            if prev.position + 1 < prev.source@.len()
                && prev.source@[prev.position + 1] == '=' {
                &&& self.toks() == prev.toks().push(
                    (TokenModel {
                        ttype: compound,
                        lexeme: seq![c, '='],
                        literal: ObjectModel::Nil,
                        line: prev.line as int,
                        column: prev.offset as int,
                    }),
                )
                &&& self.position == prev.position + 2
                &&& self.offset == prev.offset + 2
                &&& self.line == prev.line
            } else {
                &&& self.toks() == prev.toks().push(
                    single_tok(c, simple, prev.line as int, prev.offset as int),
                )
                &&& self.position == prev.position + 1
                &&& self.offset == prev.offset + 1
                &&& self.line == prev.line
            },
        ensures
            stitch(
                prev.toks(),
                spec_scan_from(
                    prev.source@,
                    prev.position as int,
                    prev.line as int,
                    prev.offset as int,
                ),
            ) == stitch(
                self.toks(),
                spec_scan_from(
                    self.source@,
                    self.position as int,
                    self.line as int,
                    self.offset as int,
                ),
            ),
    {
        let src = prev.source@;
        let pos0 = prev.position as int;
        let line0 = prev.line as int;
        let col0 = prev.offset as int;
        if pos0 + 1 < src.len() && src[pos0 + 1] == '=' {
            lemma_stitch_push(prev.toks(),
                (TokenModel {
                    ttype: compound,
                    lexeme: seq![c, '='],
                    literal: ObjectModel::Nil,
                    line: line0,
                    column: col0,
                }), spec_scan_from(src, pos0 + 2, line0, col0 + 2));
        } else {
            lemma_stitch_push(prev.toks(), single_tok(c, simple, line0, col0),
                spec_scan_from(src, pos0 + 1, line0, col0 + 1));
        }
    }

    /// Scans the whole source: dispatch steps until end of input or the
    /// first lexical error, then exactly one terminating `EOF` token at the
    /// position where scanning came to rest. Returns the token sequence and
    /// the error, if any; the tokens produced before an error are kept.
    ///
    /// The result is exactly [`spec_scan_tokens`] of the source text — a
    /// function of the text alone — so scanning equal text twice yields
    /// structurally equal token sequences.
    pub fn scan_tokens(&mut self) -> (r: (Vec<Token>, Option<ScanError>))
        requires
            old(self).wf(),
            old(self).position == 0,
            old(self).line == 0,
            old(self).offset == 0,
            old(self).tokens@.len() == 0,
        ensures
            token_models(r.0@) == spec_scan_tokens(old(self).source@).tokens,
            r.1 == spec_scan_tokens(old(self).source@).error,
            wf_token_seq(token_models(r.0@)),
    {
        let ghost src = self.source@;
        let mut error: Option<ScanError> = None;
        proof {
            assert(self.toks() =~= Seq::<TokenModel>::empty());
            assert(Seq::<TokenModel>::empty() + spec_scan_from(src, 0, 0, 0).tokens
                =~= spec_scan_from(src, 0, 0, 0).tokens);
        }
        while !self.is_eof() && error.is_none()
            invariant
                self.wf(),
                self.source@ == src,
                match error {
                    None => stitch(
                        self.toks(),
                        spec_scan_from(
                            src,
                            self.position as int,
                            self.line as int,
                            self.offset as int,
                        ),
                    ) == spec_scan_from(src, 0, 0, 0),
                    Some(e) => spec_scan_from(src, 0, 0, 0) == (ScanResult {
                        tokens: self.toks(),
                        error: Some(e),
                        line: self.line as int,
                        column: self.offset as int,
                    }),
                },
            decreases src.len() - self.position, (if error is None { 1int } else { 0int }),
        {
            let ghost toks_before = self.toks();
            let ghost pending = spec_scan_from(src, self.position as int, self.line as int,
                self.offset as int);
            let step = self.scan_token();
            match step {
                Ok(()) => {},
                Err(e) => {
                    proof {
                        assert(self.toks() + pending.tokens =~= self.toks());
                    }
                    error = Some(e);
                },
            }
        }
        proof {
            if error is None {
                lemma_stitch_empty(self.toks(), spec_scan_from(src, self.position as int,
                    self.line as int, self.offset as int));
            }
            lemma_scan_from_no_eof(src, 0, 0, 0);
        }
        let line = self.line;
        let column = self.offset;
        let eof_lexeme: Vec<char> = Vec::new();
        self.tokens.push(Token::new(TokenType::EOF, eof_lexeme, Object::Nil, line, column));
        proof {
            assert(self.toks() =~= spec_scan_tokens(src).tokens);
        }
        let mut out: Vec<Token> = Vec::new();
        core::mem::swap(&mut out, &mut self.tokens);
        (out, error)
    }
}

} // verus!

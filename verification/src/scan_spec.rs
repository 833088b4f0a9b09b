//! The spec-level scanner: a total function from a character sequence to the
//! token sequence (and possible lexical error) that scanning produces.
//!
//! [`spec_scan_tokens`] is the single source of truth for what the executable
//! [`crate::scanner::Scanner`] returns. It is a function of the source text
//! alone, so two scans of equal text always yield equal token sequences.
//!
//! Position bookkeeping: `line` is 0-based and increments at each newline;
//! `column` counts the characters consumed on the current line and resets to
//! 0 at each newline. A token records the line and column of its first
//! character. Scanning stops at the first lexical error; the tokens produced
//! before it are kept.

use vstd::prelude::*;
use crate::errors::ScanError;
use crate::token::{ObjectModel, TokenModel, TokenType};
use crate::token::{is_alnum_char, is_alpha_char, is_digit_char, spec_keyword};

verus! {

/// What a scan produces: the tokens (without the final `EOF`), the error that
/// stopped it if any, and the line and column where scanning came to rest.
pub struct ScanResult {
    pub tokens: Seq<TokenModel>,
    pub error: Option<ScanError>,
    pub line: int,
    pub column: int,
}

/// Prepends one token to a scan result.
pub open spec fn cons_tok(t: TokenModel, r: ScanResult) -> ScanResult {
    ScanResult { tokens: seq![t] + r.tokens, error: r.error, line: r.line, column: r.column }
}

/// A one-character token of the given kind at the given position.
pub open spec fn single_tok(c: char, ttype: TokenType, line: int, col: int) -> TokenModel {
    TokenModel { ttype, lexeme: seq![c], literal: ObjectModel::Nil, line, column: col }
}

/// The token kind of a character that always stands alone, if it is one.
pub open spec fn single_char_kind(c: char) -> Option<TokenType> {
    if c == '(' {
        Some(TokenType::LEFTPAREN)
    } else if c == ')' {
        Some(TokenType::RIGHTPAREN)
    } else if c == '{' {
        Some(TokenType::LEFTBRACE)
    } else if c == '}' {
        Some(TokenType::RIGHTBRACE)
    } else if c == ':' {
        Some(TokenType::COLON)
    } else if c == ',' {
        Some(TokenType::COMMA)
    } else if c == '.' {
        Some(TokenType::DOT)
    } else if c == ';' {
        Some(TokenType::SEMICOLON)
    } else if c == '*' {
        Some(TokenType::STAR)
    } else if c == '%' {
        Some(TokenType::MODULO)
    } else if c == '^' {
        Some(TokenType::POW)
    } else {
        None
    }
}

/// The (simple, compound) kinds of a character that may pair with a
/// following `=`: the compound kind is emitted when `=` follows, the simple
/// kind otherwise.
pub open spec fn two_char_kinds(c: char) -> Option<(TokenType, TokenType)> {
    if c == '+' {
        Some((TokenType::PLUS, TokenType::PLUSEQUALS))
    } else if c == '-' {
        Some((TokenType::MINUS, TokenType::MINUSEQUALS))
    } else if c == '!' {
        Some((TokenType::BANG, TokenType::BANGEQUAL))
    } else if c == '=' {
        Some((TokenType::EQUAL, TokenType::EQUALEQUAL))
    } else if c == '<' {
        Some((TokenType::LESS, TokenType::LESSEQUAL))
    } else if c == '>' {
        Some((TokenType::GREATER, TokenType::GREATEREQUAL))
    } else {
        None
    }
}

/// The first index at or after `pos` whose character fails `keep`, or the
/// end of the sequence.
pub open spec fn scan_while(s: Seq<char>, pos: int, keep: spec_fn(char) -> bool) -> int
    decreases s.len() - pos,
{
    if 0 <= pos < s.len() && keep(s[pos]) {
        scan_while(s, pos + 1, keep)
    } else {
        pos
    }
}

/// Bounds and meaning of [`scan_while`]: it lands on the first character
/// failing `keep`, and everything before it satisfies `keep`.
pub proof fn lemma_scan_while(s: Seq<char>, pos: int, keep: spec_fn(char) -> bool)
    requires
        0 <= pos <= s.len(),
    ensures
        pos <= scan_while(s, pos, keep) <= s.len(),
        forall|i: int| pos <= i < scan_while(s, pos, keep) ==> keep(#[trigger] s[i]),
        scan_while(s, pos, keep) < s.len() ==> !keep(s[scan_while(s, pos, keep)]),
    decreases s.len() - pos,
{
    if pos < s.len() && keep(s[pos]) {
        lemma_scan_while(s, pos + 1, keep);
    }
}

/// End of a run of identifier characters.
pub open spec fn ident_end(s: Seq<char>, pos: int) -> int {
    scan_while(s, pos, |c: char| is_alnum_char(c))
}

/// End of a run of decimal digits.
pub open spec fn digits_end(s: Seq<char>, pos: int) -> int {
    scan_while(s, pos, |c: char| is_digit_char(c))
}

/// End of a line comment: the index of the next newline, or the end of input.
pub open spec fn line_comment_end(s: Seq<char>, pos: int) -> int {
    scan_while(s, pos, |c: char| c != '\n')
}

/// Index of the closing quote of a string literal, or the end of input.
pub open spec fn string_close(s: Seq<char>, pos: int) -> int {
    scan_while(s, pos, |c: char| c != '"')
}

/// Advances line and column bookkeeping across the character range `[a, b)`:
/// a newline moves to the next line and resets the column, any other
/// character moves the column by one.
pub open spec fn spec_advance_pos(s: Seq<char>, a: int, b: int, line: int, col: int) -> (int, int)
    decreases b - a,
{
    if 0 <= a < b && b <= s.len() {
        if s[a] == '\n' {
            spec_advance_pos(s, a + 1, b, line + 1, 0)
        } else {
            spec_advance_pos(s, a + 1, b, line, col + 1)
        }
    } else {
        (line, col)
    }
}

/// Extending the advanced range by one character on the right applies one
/// more bookkeeping step.
pub proof fn lemma_advance_pos_snoc(s: Seq<char>, a: int, b: int, line: int, col: int)
    requires
        0 <= a <= b < s.len(),
    ensures
        spec_advance_pos(s, a, b + 1, line, col) == ({
            let (l, c) = spec_advance_pos(s, a, b, line, col);
            if s[b] == '\n' {
                (l + 1, 0int)
            } else {
                (l, c + 1)
            }
        }),
    decreases b - a,
{
    reveal_with_fuel(spec_advance_pos, 3);
    if a < b {
        if s[a] == '\n' {
            lemma_advance_pos_snoc(s, a + 1, b, line + 1, 0);
        } else {
            lemma_advance_pos_snoc(s, a + 1, b, line, col + 1);
        }
    }
}

/// One scan dispatch step and everything after it: the tokens produced from
/// position `pos` on (line/column bookkeeping as above), the error that stops
/// scanning if one occurs, and the final resting position.
pub open spec fn spec_scan_from(s: Seq<char>, pos: int, line: int, col: int) -> ScanResult
    decreases s.len() - pos,
{
    if !(0 <= pos < s.len()) {
        ScanResult { tokens: seq![], error: None, line, column: col }
    } else {
        let c = s[pos];
        if c == '\n' {
            spec_scan_from(s, pos + 1, line + 1, 0)
        } else if c == ' ' || c == '\r' {
            spec_scan_from(s, pos + 1, line, col + 1)
        } else if single_char_kind(c) is Some {
            cons_tok(
                single_tok(c, single_char_kind(c)->0, line, col),
                spec_scan_from(s, pos + 1, line, col + 1),
            )
        } else if two_char_kinds(c) is Some {
            let kinds = two_char_kinds(c)->0;
            if pos + 1 < s.len() && s[pos + 1] == '=' {
                cons_tok(
                    TokenModel {
                        ttype: kinds.1,
                        lexeme: seq![c, '='],
                        literal: ObjectModel::Nil,
                        line,
                        column: col,
                    },
                    spec_scan_from(s, pos + 2, line, col + 2),
                )
            } else {
                cons_tok(single_tok(c, kinds.0, line, col), spec_scan_from(s, pos + 1, line, col + 1))
            }
        } else if c == '/' {
            if pos + 1 < s.len() && s[pos + 1] == '/' {
                let e = line_comment_end(s, pos + 2);
                proof {
                    lemma_scan_while(s, pos + 2, |ch: char| ch != '\n');
                }
                if e < s.len() {
                    spec_scan_from(s, e + 1, line + 1, 0)
                } else {
                    ScanResult { tokens: seq![], error: None, line, column: col + (e - pos) }
                }
            } else {
                cons_tok(
                    single_tok(c, TokenType::SLASH, line, col),
                    spec_scan_from(s, pos + 1, line, col + 1),
                )
            }
        } else if c == '"' {
            let close = string_close(s, pos + 1);
            proof {
                lemma_scan_while(s, pos + 1, |ch: char| ch != '"');
            }
            if close >= s.len() {
                let rest = spec_advance_pos(s, pos, s.len() as int, line, col);
                ScanResult {
                    tokens: seq![],
                    error: Some(
                        ScanError::UnterminatedString {
                            line: line as usize,
                            column: col as usize,
                        },
                    ),
                    line: rest.0,
                    column: rest.1,
                }
            } else {
                let text = s.subrange(pos + 1, close);
                let after = spec_advance_pos(s, pos, close + 1, line, col);
                cons_tok(
                    TokenModel {
                        ttype: TokenType::STRING,
                        lexeme: text,
                        literal: ObjectModel::Str(text),
                        line,
                        column: col,
                    },
                    spec_scan_from(s, close + 1, after.0, after.1),
                )
            }
        } else if is_digit_char(c) {
            let ie = digits_end(s, pos + 1);
            proof {
                lemma_scan_while(s, pos + 1, |ch: char| is_digit_char(ch));
            }
            if ie < s.len() && s[ie] == '.' {
                if ie + 1 < s.len() && is_digit_char(s[ie + 1]) {
                    let fe = digits_end(s, ie + 2);
                    proof {
                        lemma_scan_while(s, ie + 2, |ch: char| is_digit_char(ch));
                    }
                    let text = s.subrange(pos, fe);
                    cons_tok(
                        TokenModel {
                            ttype: TokenType::NUMBER,
                            lexeme: text,
                            literal: ObjectModel::Num(text),
                            line,
                            column: col,
                        },
                        spec_scan_from(s, fe, line, col + (fe - pos)),
                    )
                } else {
                    ScanResult {
                        tokens: seq![],
                        error: Some(
                            ScanError::InvalidNumber { line: line as usize, column: col as usize },
                        ),
                        line,
                        column: col + (ie - pos),
                    }
                }
            } else {
                let text = s.subrange(pos, ie);
                cons_tok(
                    TokenModel {
                        ttype: TokenType::NUMBER,
                        lexeme: text,
                        literal: ObjectModel::Num(text),
                        line,
                        column: col,
                    },
                    spec_scan_from(s, ie, line, col + (ie - pos)),
                )
            }
        } else if is_alpha_char(c) {
            let e = ident_end(s, pos + 1);
            proof {
                lemma_scan_while(s, pos + 1, |ch: char| is_alnum_char(ch));
            }
            let text = s.subrange(pos, e);
            let kind = match spec_keyword(text) {
                Some(k) => k,
                None => TokenType::IDENTIFIER,
            };
            let lit = if kind == TokenType::TRUE {
                ObjectModel::Bool(true)
            } else if kind == TokenType::FALSE {
                ObjectModel::Bool(false)
            } else {
                ObjectModel::Nil
            };
            cons_tok(
                TokenModel { ttype: kind, lexeme: text, literal: lit, line, column: col },
                spec_scan_from(s, e, line, col + (e - pos)),
            )
        } else {
            ScanResult {
                tokens: seq![],
                error: Some(
                    ScanError::UnexpectedCharacter {
                        line: line as usize,
                        column: col as usize,
                        found: c,
                    },
                ),
                line,
                column: col,
            }
        }
    }
}

/// A scan result with already-produced tokens stitched on in front.
pub open spec fn stitch(pre: Seq<TokenModel>, r: ScanResult) -> ScanResult {
    ScanResult { tokens: pre + r.tokens, error: r.error, line: r.line, column: r.column }
}

/// Moving one token from the pending result to the front sequence keeps the
/// stitched whole unchanged.
pub proof fn lemma_stitch_push(pre: Seq<TokenModel>, t: TokenModel, r: ScanResult)
    ensures
        stitch(pre, cons_tok(t, r)) == stitch(pre.push(t), r),
{
    assert(pre + (seq![t] + r.tokens) =~= pre.push(t) + r.tokens);
}

/// Stitching onto an empty pending result only appends the tokens.
pub proof fn lemma_stitch_empty(pre: Seq<TokenModel>, r: ScanResult)
    requires
        r.tokens.len() == 0,
    ensures
        stitch(pre, r) == (ScanResult {
            tokens: pre,
            error: r.error,
            line: r.line,
            column: r.column,
        }),
{
    assert(pre + r.tokens =~= pre);
}

/// The scanner proper never emits an `EOF` token; only the terminating one
/// appended by [`spec_scan_tokens`] has that kind.
pub proof fn lemma_scan_from_no_eof(s: Seq<char>, pos: int, line: int, col: int)
    ensures
        forall|i: int|
            0 <= i < spec_scan_from(s, pos, line, col).tokens.len()
                ==> (#[trigger] spec_scan_from(s, pos, line, col).tokens[i].ttype)
                != TokenType::EOF,
    decreases s.len() - pos,
{
    if 0 <= pos < s.len() {
        let c = s[pos];
        if c == '\n' {
            lemma_scan_from_no_eof(s, pos + 1, line + 1, 0);
        } else if c == ' ' || c == '\r' {
            lemma_scan_from_no_eof(s, pos + 1, line, col + 1);
        } else if single_char_kind(c) is Some {
            lemma_scan_from_no_eof(s, pos + 1, line, col + 1);
        } else if two_char_kinds(c) is Some {
            if pos + 1 < s.len() && s[pos + 1] == '=' {
                lemma_scan_from_no_eof(s, pos + 2, line, col + 2);
            } else {
                lemma_scan_from_no_eof(s, pos + 1, line, col + 1);
            }
        } else if c == '/' {
            if pos + 1 < s.len() && s[pos + 1] == '/' {
                let e = line_comment_end(s, pos + 2);
                lemma_scan_while(s, pos + 2, |ch: char| ch != '\n');
                if e < s.len() {
                    lemma_scan_from_no_eof(s, e + 1, line + 1, 0);
                }
            } else {
                lemma_scan_from_no_eof(s, pos + 1, line, col + 1);
            }
        } else if c == '"' {
            let close = string_close(s, pos + 1);
            lemma_scan_while(s, pos + 1, |ch: char| ch != '"');
            if close < s.len() {
                let after = spec_advance_pos(s, pos, close + 1, line, col);
                lemma_scan_from_no_eof(s, close + 1, after.0, after.1);
            }
        } else if is_digit_char(c) {
            let ie = digits_end(s, pos + 1);
            lemma_scan_while(s, pos + 1, |ch: char| is_digit_char(ch));
            if ie < s.len() && s[ie] == '.' {
                if ie + 1 < s.len() && is_digit_char(s[ie + 1]) {
                    let fe = digits_end(s, ie + 2);
                    lemma_scan_while(s, ie + 2, |ch: char| is_digit_char(ch));
                    lemma_scan_from_no_eof(s, fe, line, col + (fe - pos));
                }
            } else {
                lemma_scan_from_no_eof(s, ie, line, col + (ie - pos));
            }
        } else if is_alpha_char(c) {
            let e = ident_end(s, pos + 1);
            lemma_scan_while(s, pos + 1, |ch: char| is_alnum_char(ch));
            lemma_scan_from_no_eof(s, e, line, col + (e - pos));
        }
    }
}

/// The `EOF` token that terminates every token sequence, at the position
/// where scanning came to rest.
pub open spec fn eof_tok(line: int, col: int) -> TokenModel {
    TokenModel {
        ttype: TokenType::EOF,
        lexeme: Seq::empty(),
        literal: ObjectModel::Nil,
        line,
        column: col,
    }
}

/// The complete result of scanning `s` from the start: the tokens of
/// [`spec_scan_from`] with exactly one terminating `EOF` appended, and the
/// error that stopped scanning, if any.
pub open spec fn spec_scan_tokens(s: Seq<char>) -> ScanResult {
    let r = spec_scan_from(s, 0, 0, 0);
    ScanResult {
        tokens: r.tokens.push(eof_tok(r.line, r.column)),
        error: r.error,
        line: r.line,
        column: r.column,
    }
}

} // verus!

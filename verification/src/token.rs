//! The token model: token kinds, literal values, and the tokens the scanner
//! produces, together with their spec-level views and the keyword table.
//!
//! Lexeme text is carried as `Vec<char>` (the scanner itself works over a
//! character sequence), and its spec-level view is a `Seq<char>`.

use vstd::prelude::*;

verus! {

/// The closed enumeration of token kinds: single-character punctuation,
/// arithmetic operators, compound assignment, comparison operators, the
/// literal kinds, the keywords, and the terminating `EOF`.
#[derive(Debug, Clone, Copy, PartialEq, Eq, Structural)]
pub enum TokenType {
    // Single-character tokens.
    LEFTPAREN,
    RIGHTPAREN,
    LEFTBRACE,
    RIGHTBRACE,
    COLON,
    COMMA,
    DOT,
    SEMICOLON,
    // Arithmetic operators.
    PLUS,
    MINUS,
    STAR,
    SLASH,
    MODULO,
    POW,
    // Compound assignment.
    PLUSEQUALS,
    MINUSEQUALS,
    // Comparison and assignment.
    EQUAL,
    EQUALEQUAL,
    BANG,
    BANGEQUAL,
    LESS,
    LESSEQUAL,
    GREATER,
    GREATEREQUAL,
    // Literals.
    NUMBER,
    STRING,
    IDENTIFIER,
    // Keywords.
    AND,
    OR,
    IF,
    ELSE,
    LET,
    CONST,
    FUNC,
    FOR,
    WHILE,
    TRUE,
    FALSE,
    NIL,
    RETURN,
    PRINT,
    // End of input.
    EOF,
}

/// The literal value attached to a token: number text (kept as text, with no
/// premature numeric conversion), string text, a boolean, or nothing.
#[derive(Debug, PartialEq, Eq)]
pub enum Object {
    Num(Vec<char>),
    Str(Vec<char>),
    Bool(bool),
    Nil,
}

/// Spec-level view of a literal value, with text as `Seq<char>`.
pub enum ObjectModel {
    Num(Seq<char>),
    Str(Seq<char>),
    Bool(bool),
    Nil,
}

impl View for Object {
    type V = ObjectModel;

    open spec fn view(&self) -> ObjectModel {
        match self {
            Object::Num(s) => ObjectModel::Num(s@),
            Object::Str(s) => ObjectModel::Str(s@),
            Object::Bool(b) => ObjectModel::Bool(*b),
            Object::Nil => ObjectModel::Nil,
        }
    }
}

/// A token: kind, lexeme text, literal value, and the source position where
/// its first character stands. `line` is 0-based; `column` is the 0-based
/// count of characters consumed on that line before the token starts.
#[derive(Debug, PartialEq, Eq)]
pub struct Token {
    pub ttype: TokenType,
    pub lexeme: Vec<char>,
    pub literal: Object,
    pub line: usize,
    pub column: usize,
}

/// Spec-level view of a token.
pub struct TokenModel {
    pub ttype: TokenType,
    pub lexeme: Seq<char>,
    pub literal: ObjectModel,
    pub line: int,
    pub column: int,
}

impl View for Token {
    type V = TokenModel;

    open spec fn view(&self) -> TokenModel {
        TokenModel {
            ttype: self.ttype,
            lexeme: self.lexeme@,
            literal: self.literal@,
            line: self.line as int,
            column: self.column as int,
        }
    }
}

impl Token {
    /// Builds a token from its parts.
    pub fn new(ttype: TokenType, lexeme: Vec<char>, literal: Object, line: usize, column: usize)
        -> (t: Token)
        ensures
            t@ == (TokenModel {
                ttype,
                lexeme: lexeme@,
                literal: literal@,
                line: line as int,
                column: column as int,
            }),
    {
        Token { ttype, lexeme, literal, line, column }
    }
}

/// Copies the character range `[a, b)` of `v` into a fresh vector.
pub fn copy_range(v: &Vec<char>, a: usize, b: usize) -> (r: Vec<char>)
    requires
        a <= b <= v@.len(),
    ensures
        r@ == v@.subrange(a as int, b as int),
{
    let mut r: Vec<char> = Vec::new();
    let mut i: usize = a;
    while i < b
        invariant
            a <= i <= b <= v@.len(),
            r@ == v@.subrange(a as int, i as int),
        decreases b - i,
    {
        r.push(v[i]);
        i = i + 1;
        assert(r@ =~= v@.subrange(a as int, i as int));
    }
    r
}

impl Clone for Object {
    /// Clones a literal value; the copy has the same view.
    fn clone(&self) -> (r: Object)
        ensures
            r@ == self@,
    {
        match self {
            Object::Num(s) => {
                let t = copy_range(s, 0, s.len());
                assert(t@ =~= s@);
                Object::Num(t)
            },
            Object::Str(s) => {
                let t = copy_range(s, 0, s.len());
                assert(t@ =~= s@);
                Object::Str(t)
            },
            Object::Bool(b) => Object::Bool(*b),
            Object::Nil => Object::Nil,
        }
    }
}

impl Clone for Token {
    /// Clones a token; the copy has the same view.
    fn clone(&self) -> (r: Token)
        ensures
            r@ == self@,
    {
        let r = Token {
            ttype: self.ttype,
            lexeme: copy_range(&self.lexeme, 0, self.lexeme.len()),
            literal: self.literal.clone(),
            line: self.line,
            column: self.column,
        };
        assert(r.lexeme@ =~= self.lexeme@);
        r
    }
}

/// The spec-level views of a token sequence.
pub open spec fn token_models(ts: Seq<Token>) -> Seq<TokenModel> {
    Seq::new(ts.len(), |i: int| ts[i]@)
}

/// A well-formed token sequence: nonempty, terminated by exactly one `EOF`
/// token, which stands nowhere else.
pub open spec fn wf_token_seq(ts: Seq<TokenModel>) -> bool {
    &&& ts.len() >= 1
    &&& ts[ts.len() - 1].ttype == TokenType::EOF
    &&& forall|i: int| 0 <= i < ts.len() - 1 ==> (#[trigger] ts[i].ttype) != TokenType::EOF
}

/// A decimal digit.
pub open spec fn is_digit_char(c: char) -> bool {
    ('0' as u32) <= (c as u32) && (c as u32) <= ('9' as u32)
}

/// An ASCII letter or underscore: what may begin an identifier.
pub open spec fn is_alpha_char(c: char) -> bool {
    (('a' as u32) <= (c as u32) && (c as u32) <= ('z' as u32))
        || (('A' as u32) <= (c as u32) && (c as u32) <= ('Z' as u32))
        || c == '_'
}

/// What may continue an identifier: a letter, digit, or underscore.
pub open spec fn is_alnum_char(c: char) -> bool {
    is_alpha_char(c) || is_digit_char(c)
}

/// The fixed keyword table: reserved identifier text and its token kind.
/// Text not in the table is an ordinary identifier.
pub open spec fn spec_keyword(s: Seq<char>) -> Option<TokenType> {
    if s == seq!['a', 'n', 'd'] {
        Some(TokenType::AND)
    } else if s == seq!['o', 'r'] {
        Some(TokenType::OR)
    } else if s == seq!['i', 'f'] {
        Some(TokenType::IF)
    } else if s == seq!['e', 'l', 's', 'e'] {
        Some(TokenType::ELSE)
    } else if s == seq!['l', 'e', 't'] {
        Some(TokenType::LET)
    } else if s == seq!['c', 'o', 'n', 's', 't'] {
        Some(TokenType::CONST)
    } else if s == seq!['f', 'u', 'n', 'c'] {
        Some(TokenType::FUNC)
    } else if s == seq!['f', 'o', 'r'] {
        Some(TokenType::FOR)
    } else if s == seq!['w', 'h', 'i', 'l', 'e'] {
        Some(TokenType::WHILE)
    } else if s == seq!['t', 'r', 'u', 'e'] {
        Some(TokenType::TRUE)
    } else if s == seq!['f', 'a', 'l', 's', 'e'] {
        Some(TokenType::FALSE)
    } else if s == seq!['n', 'i', 'l'] {
        Some(TokenType::NIL)
    } else if s == seq!['r', 'e', 't', 'u', 'r', 'n'] {
        Some(TokenType::RETURN)
    } else if s == seq!['p', 'r', 'i', 'n', 't'] {
        Some(TokenType::PRINT)
    } else {
        None
    }
}

/// Looks identifier text up in the keyword table.
pub fn keyword_lookup(text: &Vec<char>) -> (r: Option<TokenType>)
    ensures
        r == spec_keyword(text@),
{
    let n = text.len();
    let r = if n == 2 {
        if text[0] == 'o' && text[1] == 'r' {
            Some(TokenType::OR)
        } else if text[0] == 'i' && text[1] == 'f' {
            Some(TokenType::IF)
        } else {
            None
        }
    } else if n == 3 {
        if text[0] == 'a' && text[1] == 'n' && text[2] == 'd' {
            Some(TokenType::AND)
        } else if text[0] == 'l' && text[1] == 'e' && text[2] == 't' {
            Some(TokenType::LET)
        } else if text[0] == 'f' && text[1] == 'o' && text[2] == 'r' {
            Some(TokenType::FOR)
        } else if text[0] == 'n' && text[1] == 'i' && text[2] == 'l' {
            Some(TokenType::NIL)
        } else {
            None
        }
    } else if n == 4 {
        if text[0] == 'e' && text[1] == 'l' && text[2] == 's' && text[3] == 'e' {
            Some(TokenType::ELSE)
        } else if text[0] == 'f' && text[1] == 'u' && text[2] == 'n' && text[3] == 'c' {
            Some(TokenType::FUNC)
        } else if text[0] == 't' && text[1] == 'r' && text[2] == 'u' && text[3] == 'e' {
            Some(TokenType::TRUE)
        } else {
            None
        }
    } else if n == 5 {
        if text[0] == 'c' && text[1] == 'o' && text[2] == 'n' && text[3] == 's' && text[4] == 't' {
            Some(TokenType::CONST)
        } else if text[0] == 'w' && text[1] == 'h' && text[2] == 'i' && text[3] == 'l'
            && text[4] == 'e' {
            Some(TokenType::WHILE)
        } else if text[0] == 'f' && text[1] == 'a' && text[2] == 'l' && text[3] == 's'
            && text[4] == 'e' {
            Some(TokenType::FALSE)
        } else if text[0] == 'p' && text[1] == 'r' && text[2] == 'i' && text[3] == 'n'
            && text[4] == 't' {
            Some(TokenType::PRINT)
        } else {
            None
        }
    } else if n == 6 {
        if text[0] == 'r' && text[1] == 'e' && text[2] == 't' && text[3] == 'u' && text[4] == 'r'
            && text[5] == 'n' {
            Some(TokenType::RETURN)
        } else {
            None
        }
    } else {
        None
    };
    proof {
        if r is Some {
            assert(spec_keyword(text@) == r) by {
                match r {
                    Some(TokenType::OR) => { assert(text@ =~= seq!['o', 'r']); },
                    Some(TokenType::IF) => { assert(text@ =~= seq!['i', 'f']); },
                    Some(TokenType::AND) => { assert(text@ =~= seq!['a', 'n', 'd']); },
                    Some(TokenType::LET) => { assert(text@ =~= seq!['l', 'e', 't']); },
                    Some(TokenType::FOR) => { assert(text@ =~= seq!['f', 'o', 'r']); },
                    Some(TokenType::NIL) => { assert(text@ =~= seq!['n', 'i', 'l']); },
                    Some(TokenType::ELSE) => { assert(text@ =~= seq!['e', 'l', 's', 'e']); },
                    Some(TokenType::FUNC) => { assert(text@ =~= seq!['f', 'u', 'n', 'c']); },
                    Some(TokenType::TRUE) => { assert(text@ =~= seq!['t', 'r', 'u', 'e']); },
                    Some(TokenType::CONST) => {
                        assert(text@ =~= seq!['c', 'o', 'n', 's', 't']);
                    },
                    Some(TokenType::WHILE) => {
                        assert(text@ =~= seq!['w', 'h', 'i', 'l', 'e']);
                    },
                    Some(TokenType::FALSE) => {
                        assert(text@ =~= seq!['f', 'a', 'l', 's', 'e']);
                    },
                    Some(TokenType::PRINT) => {
                        assert(text@ =~= seq!['p', 'r', 'i', 'n', 't']);
                    },
                    Some(TokenType::RETURN) => {
                        assert(text@ =~= seq!['r', 'e', 't', 'u', 'r', 'n']);
                    },
                    _ => {},
                }
            }
        }
    }
    r
}

} // verus!

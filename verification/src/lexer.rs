//! The lexer: source text to tokens, each carrying its structured source
//! position. All syntax-error detection at the character level happens
//! here, at the point of failure.

use vstd::prelude::*;

use crate::input::{is_digit, parse_i64};
use crate::span::Position;
use crate::text::chars_to_string;

verus! {

/// A token's kind, with its payload where it has one.
pub enum TokenKind {
    Number(i64),
    StrLit(String),
    Identifier(String),
    KwLet,
    KwMut,
    KwConst,
    KwPrint,
    KwInput,
    KwIf,
    KwElif,
    KwElse,
    KwWhile,
    KwUntil,
    KwFn,
    KwReturn,
    KwTrue,
    KwFalse,
    LParen,
    RParen,
    LBrace,
    RBrace,
    LBracket,
    RBracket,
    Comma,
    Colon,
    Dot,
    Plus,
    Minus,
    Star,
    Slash,
    Assign,
    EqEq,
    BangEq,
    Gt,
    Lt,
    Ge,
    Le,
}

/// A token with the position where it starts.
pub struct Token {
    pub kind: TokenKind,
    pub pos: Position,
}

/// A character-level syntax failure, with its structured position.
pub struct LexError {
    pub message: String,
    pub pos: Position,
}

/// Whether a character can start an identifier.
pub open spec fn spec_ident_start(c: char) -> bool {
    ('a' <= c && c <= 'z') || ('A' <= c && c <= 'Z') || c == '_'
}

fn ident_start(c: char) -> (r: bool)
    ensures
        r == spec_ident_start(c),
{
    ('a' <= c && c <= 'z') || ('A' <= c && c <= 'Z') || c == '_'
}

fn ident_continue(c: char) -> (r: bool)
    ensures
        r == (spec_ident_start(c) || is_digit(c)),
{
    ident_start(c) || ('0' <= c && c <= '9')
}

/// The lexer's cursor over the source characters.
struct Cursor {
    src: Vec<char>,
    i: usize,
    line: usize,
    col: usize,
}

impl Cursor {
    spec fn wf(self) -> bool {
        &&& self.i <= self.src@.len()
        &&& self.line >= 1
        &&& self.col >= 1
    }

    fn pos(&self) -> (r: Position)
        ensures
            r.line == self.line,
            r.col == self.col,
            r.offset == self.i,
    {
        Position { line: self.line, col: self.col, offset: self.i }
    }

    fn at_end(&self) -> (r: bool)
        ensures
            r == (self.i == self.src@.len()),
    {
        self.i == self.src.len()
    }

    fn peek(&self) -> (r: char)
        requires
            self.i < self.src@.len(),
        ensures
            r == self.src@[self.i as int],
    {
        self.src[self.i]
    }

    /// Step over the character under the cursor, tracking line and
    /// column.
    fn bump(&mut self)
        requires
            old(self).wf(),
            old(self).i < old(self).src@.len(),
        ensures
            final(self).wf(),
            final(self).src == old(self).src,
            final(self).i == old(self).i + 1,
    {
        let c = self.src[self.i];
        // reading the length here bounds the cursor within the machine's range
        let limit = self.src.len();
        self.i = self.i + 1;
        if c == '\n' {
            if self.line < usize::MAX {
                self.line = self.line + 1;
            }
            self.col = 1;
        } else {
            if self.col < usize::MAX {
                self.col = self.col + 1;
            }
        }
    }
}

/// Turn source characters into tokens, or fail at the first offending
/// character with its position.
pub fn tokenize(src: Vec<char>) -> (r: Result<Vec<Token>, LexError>)
    ensures
        src@.len() == 0 ==> (r matches Ok(ts) && ts@.len() == 0),
        src@ == seq!['('] ==> (r matches Ok(ts) && ts@.len() == 1 && ts@[0].kind is LParen),
{
    let n = src.len();
    let mut cur = Cursor { src, i: 0, line: 1, col: 1 };
    let mut out: Vec<Token> = Vec::new();
    while !cur.at_end()
        invariant
            n == src@.len(),
            cur.wf(),
            cur.src@ == src@,
            cur.src@.len() == n,
            n == 0 ==> out@.len() == 0,
            src@ == seq!['('] ==> ((cur.i == 0 && out@.len() == 0) || (cur.i == 1 && out@.len()
                == 1 && out@[0].kind is LParen)),
        decreases n - cur.i,
    {
        let ghost i0 = cur.i;
        let c = cur.peek();
        // whitespace
        if c == ' ' || c == '\t' || c == '\r' || c == '\n' {
            cur.bump();
            continue ;
        }
        // comments run to the end of the line
        if c == '#' {
            proof {
                if src@ == seq!['('] {
                    assert(i0 == 0);
                    assert(c == '(');
                    assert(false);
                }
            }
            cur.bump();
            let ghost i1 = cur.i;
            while !cur.at_end() && cur.peek() != '\n'
                invariant
                    cur.wf(),
                    cur.src@ == src@,
                    cur.src@.len() == n,
                    cur.i >= i1,
                    src@ != seq!['('],
                decreases n - cur.i,
            {
                cur.bump();
            }
            continue ;
        }
        let start = cur.pos();
        // numbers
        if '0' <= c && c <= '9' {
            proof {
                if src@ == seq!['('] {
                    assert(i0 == 0);
                    assert(c == '(');
                    assert(false);
                }
            }
            let mut digits: Vec<char> = Vec::new();
            digits.push(c);
            cur.bump();
            let ghost i1 = cur.i;
            while !cur.at_end() && '0' <= cur.peek() && cur.peek() <= '9'
                invariant
                    n == src@.len(),
                    cur.wf(),
                    cur.src@ == src@,
                    cur.src@.len() == n,
                    cur.i >= i1,
                    src@ != seq!['('],
                    forall|k: int| 0 <= k < digits@.len() ==> is_digit(#[trigger] digits@[k]),
                decreases n - cur.i,
            {
                digits.push(cur.peek());
                cur.bump();
            }
            if !cur.at_end() && cur.peek() == '.' {
                return Err(
                    LexError {
                        message: String::from_str(
                            "fractional numeric literals are not supported: numbers are exact integers",
                        ),
                        pos: cur.pos(),
                    },
                );
            }
            match parse_i64(&digits) {
                Some(v) => {
                    out.push(Token { kind: TokenKind::Number(v), pos: start });
                },
                None => {
                    return Err(
                        LexError {
                            message: String::from_str(
                                "numeric literal does not fit in a 64-bit number",
                            ),
                            pos: start,
                        },
                    );
                },
            }
            continue ;
        }
        // identifiers and keywords
        if ident_start(c) {
            proof {
                if src@ == seq!['('] {
                    assert(i0 == 0);
                    assert(c == '(');
                    assert(false);
                }
            }
            let mut name: Vec<char> = Vec::new();
            name.push(c);
            cur.bump();
            let ghost i1 = cur.i;
            while !cur.at_end() && ident_continue(cur.peek())
                invariant
                    cur.wf(),
                    cur.src@ == src@,
                    cur.src@.len() == n,
                    cur.i >= i1,
                    src@ != seq!['('],
                decreases n - cur.i,
            {
                name.push(cur.peek());
                cur.bump();
            }
            let kind = keyword_or_identifier(&name);
            out.push(Token { kind, pos: start });
            continue ;
        }
        // string literals with escape handling
        if c == '"' {
            proof {
                if src@ == seq!['('] {
                    assert(i0 == 0);
                    assert(c == '(');
                    assert(false);
                }
            }
            cur.bump();
            let ghost i1 = cur.i;
            let mut text: Vec<char> = Vec::new();
            loop
                invariant
                    n == src@.len(),
                    n >= 1,
                    cur.wf(),
                    cur.src@ == src@,
                    cur.src@.len() == n,
                    cur.i >= i1,
                    src@ != seq!['('],
                decreases n - cur.i,
            {
                if cur.at_end() {
                    return Err(
                        LexError {
                            message: String::from_str("unterminated string literal"),
                            pos: start,
                        },
                    );
                }
                let d = cur.peek();
                if d == '"' {
                    cur.bump();
                    break ;
                }
                if d == '\\' {
                    cur.bump();
                    if cur.at_end() {
                        return Err(
                            LexError {
                                message: String::from_str("unterminated string literal"),
                                pos: start,
                            },
                        );
                    }
                    let e = cur.peek();
                    let mapped = if e == 'n' {
                        '\n'
                    } else if e == 't' {
                        '\t'
                    } else if e == 'r' {
                        '\r'
                    } else if e == '\\' {
                        '\\'
                    } else if e == '"' {
                        '"'
                    } else {
                        return Err(
                            LexError {
                                message: String::from_str("unknown escape in string literal"),
                                pos: cur.pos(),
                            },
                        );
                    };
                    text.push(mapped);
                    cur.bump();
                } else {
                    text.push(d);
                    cur.bump();
                }
            }
            out.push(
                Token { kind: TokenKind::StrLit(chars_to_string(&text)), pos: start },
            );
            continue ;
        }
        // operators and punctuation
        let kind = if c == '(' {
            cur.bump();
            TokenKind::LParen
        } else if c == ')' {
            cur.bump();
            TokenKind::RParen
        } else if c == '{' {
            cur.bump();
            TokenKind::LBrace
        } else if c == '}' {
            cur.bump();
            TokenKind::RBrace
        } else if c == '[' {
            cur.bump();
            TokenKind::LBracket
        } else if c == ']' {
            cur.bump();
            TokenKind::RBracket
        } else if c == ',' {
            cur.bump();
            TokenKind::Comma
        } else if c == ':' {
            cur.bump();
            TokenKind::Colon
        } else if c == '.' {
            cur.bump();
            TokenKind::Dot
        } else if c == '+' {
            cur.bump();
            TokenKind::Plus
        } else if c == '-' {
            cur.bump();
            TokenKind::Minus
        } else if c == '*' {
            cur.bump();
            TokenKind::Star
        } else if c == '/' {
            cur.bump();
            TokenKind::Slash
        } else if c == '=' {
            cur.bump();
            if !cur.at_end() && cur.peek() == '=' {
                cur.bump();
                TokenKind::EqEq
            } else {
                TokenKind::Assign
            }
        } else if c == '!' {
            cur.bump();
            if !cur.at_end() && cur.peek() == '=' {
                cur.bump();
                TokenKind::BangEq
            } else {
                return Err(
                    LexError {
                        message: String::from_str("expected `=` after `!`"),
                        pos: start,
                    },
                );
            }
        } else if c == '>' {
            cur.bump();
            if !cur.at_end() && cur.peek() == '=' {
                cur.bump();
                TokenKind::Ge
            } else {
                TokenKind::Gt
            }
        } else if c == '<' {
            cur.bump();
            if !cur.at_end() && cur.peek() == '=' {
                cur.bump();
                TokenKind::Le
            } else {
                TokenKind::Lt
            }
        } else {
            return Err(
                LexError { message: String::from_str("unexpected character"), pos: start },
            );
        };
        out.push(Token { kind, pos: start });
    }
    Ok(out)
}

/// Classify a scanned word as a keyword or an identifier.
fn keyword_or_identifier(name: &Vec<char>) -> (r: TokenKind) {
    let s = chars_to_string(name);
    if crate::text::str_eq(s.as_str(), "let") {
        TokenKind::KwLet
    } else if crate::text::str_eq(s.as_str(), "mut") {
        TokenKind::KwMut
    } else if crate::text::str_eq(s.as_str(), "const") {
        TokenKind::KwConst
    } else if crate::text::str_eq(s.as_str(), "print") {
        TokenKind::KwPrint
    } else if crate::text::str_eq(s.as_str(), "input") {
        TokenKind::KwInput
    } else if crate::text::str_eq(s.as_str(), "if") {
        TokenKind::KwIf
    } else if crate::text::str_eq(s.as_str(), "elif") {
        TokenKind::KwElif
    } else if crate::text::str_eq(s.as_str(), "else") {
        TokenKind::KwElse
    } else if crate::text::str_eq(s.as_str(), "while") {
        TokenKind::KwWhile
    } else if crate::text::str_eq(s.as_str(), "until") {
        TokenKind::KwUntil
    } else if crate::text::str_eq(s.as_str(), "fn") {
        TokenKind::KwFn
    } else if crate::text::str_eq(s.as_str(), "return") {
        TokenKind::KwReturn
    } else if crate::text::str_eq(s.as_str(), "true") {
        TokenKind::KwTrue
    } else if crate::text::str_eq(s.as_str(), "false") {
        TokenKind::KwFalse
    } else {
        TokenKind::Identifier(s)
    }
}

} // verus!

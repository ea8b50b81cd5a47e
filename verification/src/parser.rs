//! The parser: single-pass recursive descent from tokens to the abstract
//! syntax tree, with standard operator precedence (unary tighter than
//! multiplicative, multiplicative tighter than additive, additive tighter
//! than comparison, comparison tighter than equality). Malformed
//! constructs are rejected at the point of failure with a structured
//! position, never deferred to evaluation.

use vstd::prelude::*;

use crate::ast::{
    BinaryOp, CondBlock, ConditionalStmt, ConstDecl, Expr, ExprKind, FuncDecl, LiteralValue,
    LoopStmt, MutDecl, Program, Stmt, StmtKind, UnaryOp, VarDecl, VarSet,
};
use crate::diagnostics::{Annotation, Diagnostic};
use crate::lexer::{tokenize, Token, TokenKind};
use crate::span::{Position, Span};
use crate::text::str_chars;
use crate::types::Type;

verus! {

/// A syntax failure with its structured position.
pub struct ParseError {
    pub message: String,
    pub pos: Position,
}

struct Parser {
    tokens: Vec<Token>,
    pos: usize,
}

impl Parser {
    spec fn wf(self) -> bool {
        self.pos <= self.tokens@.len()
    }

    spec fn rem(self) -> int {
        self.tokens@.len() - self.pos
    }

    /// The position of the token under the cursor, or of the end of
    /// input.
    fn here(&self) -> (r: Position)
        requires
            self.wf(),
    {
        if self.pos < self.tokens.len() {
            self.tokens[self.pos].pos
        } else if self.tokens.len() > 0 {
            self.tokens[self.tokens.len() - 1].pos
        } else {
            Position { line: 1, col: 1, offset: 0 }
        }
    }

    fn err(&self, message: &str) -> (r: ParseError)
        requires
            self.wf(),
    {
        ParseError { message: String::from_str(message), pos: self.here() }
    }

    fn at_end(&self) -> (r: bool)
        requires
            self.wf(),
        ensures
            r == (self.pos == self.tokens@.len()),
    {
        self.pos == self.tokens.len()
    }

    /// Step past the token under the cursor.
    fn bump(&mut self)
        requires
            old(self).wf(),
            old(self).pos < old(self).tokens@.len(),
        ensures
            final(self).wf(),
            final(self).tokens == old(self).tokens,
            final(self).pos == old(self).pos + 1,
    {
        // reading the length here bounds the cursor within the machine's range
        let limit = self.tokens.len();
        self.pos = self.pos + 1;
    }

    /// Expect and consume one punctuation token.
    fn expect(&mut self, which: &TokenKind, describe: &str) -> (r: Result<(), ParseError>)
        requires
            old(self).wf(),
        ensures
            final(self).wf(),
            final(self).tokens == old(self).tokens,
            old(self).pos <= final(self).pos,
            r is Ok ==> final(self).pos == old(self).pos + 1,
    {
        if self.at_end() {
            return Err(self.err(describe));
        }
        let ok = match (&self.tokens[self.pos].kind, which) {
            (TokenKind::LParen, TokenKind::LParen) => true,
            (TokenKind::RParen, TokenKind::RParen) => true,
            (TokenKind::LBrace, TokenKind::LBrace) => true,
            (TokenKind::RBrace, TokenKind::RBrace) => true,
            (TokenKind::LBracket, TokenKind::LBracket) => true,
            (TokenKind::RBracket, TokenKind::RBracket) => true,
            (TokenKind::Comma, TokenKind::Comma) => true,
            (TokenKind::Colon, TokenKind::Colon) => true,
            (TokenKind::Assign, TokenKind::Assign) => true,
            _ => false,
        };
        if ok {
            self.bump();
            Ok(())
        } else {
            Err(self.err(describe))
        }
    }

    /// Expect and consume an identifier, yielding its name.
    fn expect_ident(&mut self, describe: &str) -> (r: Result<String, ParseError>)
        requires
            old(self).wf(),
        ensures
            final(self).wf(),
            final(self).tokens == old(self).tokens,
            old(self).pos <= final(self).pos,
            r is Ok ==> final(self).pos == old(self).pos + 1,
    {
        if self.at_end() {
            return Err(self.err(describe));
        }
        let name = match &self.tokens[self.pos].kind {
            TokenKind::Identifier(n) => Some(n.clone()),
            _ => None,
        };
        match name {
            Some(n) => {
                self.bump();
                Ok(n)
            },
            None => Err(self.err(describe)),
        }
    }

    /// Parse a whole token stream as a program.
    fn parse_all(&mut self) -> (r: Result<Program, ParseError>)
        requires
            old(self).wf(),
            old(self).pos == 0,
        ensures
            final(self).wf(),
            old(self).tokens@.len() == 0 ==> (r matches Ok(p) && p@.len() == 0),
            r matches Ok(p) ==> p@.len() <= old(self).tokens@.len(),
            old(self).tokens@.len() > 0 && old(self).tokens@[0].kind is LParen ==> r is Err,
    {
        let mut out: Vec<Stmt> = Vec::new();
        while !self.at_end()
            invariant
                self.wf(),
                self.tokens == old(self).tokens,
                out@.len() <= self.pos,
                old(self).tokens@.len() == 0 ==> out@.len() == 0,
                old(self).tokens@.len() > 0 && old(self).tokens@[0].kind is LParen ==> self.pos
                    == 0 && out@.len() == 0,
            decreases self.rem(),
        {
            let s = self.parse_stmt()?;
            out.push(s);
        }
        Ok(out)
    }

    /// Parse one statement.
    fn parse_stmt(&mut self) -> (r: Result<Stmt, ParseError>)
        requires
            old(self).wf(),
            old(self).pos < old(self).tokens@.len(),
        ensures
            final(self).wf(),
            final(self).tokens == old(self).tokens,
            old(self).pos <= final(self).pos,
            r is Ok ==> old(self).pos < final(self).pos,
            old(self).tokens@[old(self).pos as int].kind is LParen ==> r is Err,
        decreases self.rem(), 10int,
    {
        let start = self.tokens[self.pos].pos;
        let span = Span::at(start);
        match &self.tokens[self.pos].kind {
            TokenKind::KwLet => {
                self.bump();
                let name = self.expect_ident("expected a variable name after `let`")?;
                self.expect(&TokenKind::Assign, "expected `=` in declaration")?;
                let value = self.parse_expr()?;
                Ok(Stmt { kind: StmtKind::VarDeclaration(VarDecl { name, value }), span })
            },
            TokenKind::KwMut => {
                self.bump();
                let name = self.expect_ident("expected a variable name after `mut`")?;
                self.expect(&TokenKind::Assign, "expected `=` in declaration")?;
                let value = self.parse_expr()?;
                Ok(Stmt { kind: StmtKind::MutDeclaration(MutDecl { name, value }), span })
            },
            TokenKind::KwConst => {
                self.bump();
                let name = self.expect_ident("expected a constant name after `const`")?;
                self.expect(&TokenKind::Assign, "expected `=` in declaration")?;
                let value = self.parse_expr()?;
                Ok(Stmt { kind: StmtKind::ConstDeclaration(ConstDecl { name, value }), span })
            },
            TokenKind::KwPrint => {
                self.bump();
                let first = self.parse_expr()?;
                let mut items: Vec<Expr> = Vec::new();
                items.push(first);
                while !self.at_end() && matches!(
                    self.tokens[self.pos].kind,
                    TokenKind::Comma,
                )
                    invariant
                        self.wf(),
                        self.tokens == old(self).tokens,
                        old(self).pos < self.pos,
                    decreases self.rem(),
                {
                    self.bump();
                    let e = self.parse_expr()?;
                    items.push(e);
                }
                Ok(Stmt { kind: StmtKind::Print(items), span })
            },
            TokenKind::KwInput => {
                self.bump();
                let name = self.expect_ident("expected a variable name after `input`")?;
                self.expect(&TokenKind::Colon, "expected `:` and a type in `input`")?;
                let tname = self.expect_ident("expected a type name in `input`")?;
                match Type::from_str(tname.as_str()) {
                    Ok(var_type) => Ok(Stmt { kind: StmtKind::Input { name, var_type }, span }),
                    Err(_) => Err(self.err("unknown type name in `input`")),
                }
            },
            TokenKind::KwIf => {
                self.bump();
                let condition = self.parse_expr()?;
                let body = self.parse_block()?;
                let if_block = CondBlock { condition, body };
                let mut elif_blocks: Vec<CondBlock> = Vec::new();
                while !self.at_end() && matches!(
                    self.tokens[self.pos].kind,
                    TokenKind::KwElif,
                )
                    invariant
                        self.wf(),
                        self.tokens == old(self).tokens,
                        old(self).pos < self.pos,
                    decreases self.rem(),
                {
                    self.bump();
                    let c = self.parse_expr()?;
                    let b = self.parse_block()?;
                    elif_blocks.push(CondBlock { condition: c, body: b });
                }
                let else_block = if !self.at_end() && matches!(
                    self.tokens[self.pos].kind,
                    TokenKind::KwElse,
                ) {
                    self.bump();
                    Some(self.parse_block()?)
                } else {
                    None
                };
                Ok(
                    Stmt {
                        kind: StmtKind::Conditional(
                            ConditionalStmt { if_block, elif_blocks, else_block },
                        ),
                        span,
                    },
                )
            },
            TokenKind::KwWhile => {
                self.bump();
                let condition = self.parse_expr()?;
                let body = self.parse_block()?;
                Ok(Stmt { kind: StmtKind::Loop(LoopStmt::While { condition, body }), span })
            },
            TokenKind::KwUntil => {
                self.bump();
                let condition = self.parse_expr()?;
                let body = self.parse_block()?;
                Ok(Stmt { kind: StmtKind::Loop(LoopStmt::Until { condition, body }), span })
            },
            TokenKind::KwFn => {
                self.bump();
                let name = self.expect_ident("expected a function name after `fn`")?;
                self.expect(&TokenKind::LParen, "expected `(` after the function name")?;
                let mut params: Vec<(String, Type)> = Vec::new();
                if !self.at_end() && !matches!(self.tokens[self.pos].kind, TokenKind::RParen) {
                    let p = self.parse_param()?;
                    params.push(p);
                    while !self.at_end() && matches!(
                        self.tokens[self.pos].kind,
                        TokenKind::Comma,
                    )
                        invariant
                            self.wf(),
                            self.tokens == old(self).tokens,
                            old(self).pos < self.pos,
                        decreases self.rem(),
                    {
                        self.bump();
                        let p2 = self.parse_param()?;
                        params.push(p2);
                    }
                }
                self.expect(&TokenKind::RParen, "expected `)` after the parameter list")?;
                let body = self.parse_block()?;
                Ok(Stmt { kind: StmtKind::FuncDeclaration(FuncDecl { name, params, body }), span })
            },
            TokenKind::KwReturn => {
                self.bump();
                let value = self.parse_expr()?;
                Ok(Stmt { kind: StmtKind::Return(value), span })
            },
            TokenKind::Identifier(_) => {
                // reading the length here bounds the lookahead within the machine's range
                let limit = self.tokens.len();
                let is_assign = self.pos + 1 < limit && matches!(
                    self.tokens[self.pos + 1].kind,
                    TokenKind::Assign,
                );
                if is_assign {
                    let name = self.expect_ident("expected a variable name")?;
                    self.expect(&TokenKind::Assign, "expected `=` in assignment")?;
                    let value = self.parse_expr()?;
                    Ok(Stmt { kind: StmtKind::VarAssignment(VarSet { name, value }), span })
                } else {
                    let e = self.parse_expr()?;
                    if matches!(e.kind, ExprKind::FunctionCall { .. }) {
                        Ok(Stmt { kind: StmtKind::FuncCall(e), span })
                    } else {
                        Err(self.err("only a call expression can stand as a statement"))
                    }
                }
            },
            _ => Err(self.err("expected a statement")),
        }
    }

    /// Parse one `name` or `name: type` parameter.
    fn parse_param(&mut self) -> (r: Result<(String, Type), ParseError>)
        requires
            old(self).wf(),
        ensures
            final(self).wf(),
            final(self).tokens == old(self).tokens,
            old(self).pos <= final(self).pos,
            r is Ok ==> old(self).pos < final(self).pos,
    {
        let name = self.expect_ident("expected a parameter name")?;
        if !self.at_end() && matches!(self.tokens[self.pos].kind, TokenKind::Colon) {
            self.bump();
            let tname = self.expect_ident("expected a type name after `:`")?;
            match Type::from_str(tname.as_str()) {
                Ok(t) => Ok((name, t)),
                Err(_) => Err(self.err("unknown type name in parameter list")),
            }
        } else {
            Ok((name, Type::Any))
        }
    }

    /// Parse a `{ ... }` block of statements.
    fn parse_block(&mut self) -> (r: Result<Vec<Stmt>, ParseError>)
        requires
            old(self).wf(),
        ensures
            final(self).wf(),
            final(self).tokens == old(self).tokens,
            old(self).pos <= final(self).pos,
            r is Ok ==> old(self).pos < final(self).pos,
        decreases self.rem(), 11int,
    {
        self.expect(&TokenKind::LBrace, "expected `{` to open a block")?;
        let mut out: Vec<Stmt> = Vec::new();
        while !self.at_end() && !matches!(self.tokens[self.pos].kind, TokenKind::RBrace)
            invariant
                self.wf(),
                self.tokens == old(self).tokens,
                old(self).pos < self.pos,
            decreases self.rem(),
        {
            let s = self.parse_stmt()?;
            out.push(s);
        }
        self.expect(&TokenKind::RBrace, "expected `}` to close the block")?;
        Ok(out)
    }

    /// Parse an expression (equality has the loosest binding).
    fn parse_expr(&mut self) -> (r: Result<Expr, ParseError>)
        requires
            old(self).wf(),
        ensures
            final(self).wf(),
            final(self).tokens == old(self).tokens,
            old(self).pos <= final(self).pos,
            r is Ok ==> old(self).pos < final(self).pos,
        decreases self.rem(), 8int,
    {
        let first = self.parse_comparison()?;
        let mut e = first;
        while !self.at_end() && (matches!(self.tokens[self.pos].kind, TokenKind::EqEq) || matches!(
            self.tokens[self.pos].kind,
            TokenKind::BangEq,
        ))
            invariant
                self.wf(),
                self.tokens == old(self).tokens,
                old(self).pos < self.pos,
            decreases self.rem(),
        {
            let span = Span::at(self.tokens[self.pos].pos);
            let op = if matches!(self.tokens[self.pos].kind, TokenKind::EqEq) {
                BinaryOp::Equals
            } else {
                BinaryOp::NotEquals
            };
            self.bump();
            let rhs = self.parse_comparison()?;
            e = Expr { kind: ExprKind::Binary { op, left: Box::new(e), right: Box::new(rhs) }, span };
        }
        Ok(e)
    }

    /// Parse a comparison chain.
    fn parse_comparison(&mut self) -> (r: Result<Expr, ParseError>)
        requires
            old(self).wf(),
        ensures
            final(self).wf(),
            final(self).tokens == old(self).tokens,
            old(self).pos <= final(self).pos,
            r is Ok ==> old(self).pos < final(self).pos,
        decreases self.rem(), 6int,
    {
        let first = self.parse_additive()?;
        let mut e = first;
        while !self.at_end() && (matches!(self.tokens[self.pos].kind, TokenKind::Gt) || matches!(
            self.tokens[self.pos].kind,
            TokenKind::Lt,
        ) || matches!(self.tokens[self.pos].kind, TokenKind::Ge) || matches!(
            self.tokens[self.pos].kind,
            TokenKind::Le,
        ))
            invariant
                self.wf(),
                self.tokens == old(self).tokens,
                old(self).pos < self.pos,
            decreases self.rem(),
        {
            let span = Span::at(self.tokens[self.pos].pos);
            let op = if matches!(self.tokens[self.pos].kind, TokenKind::Gt) {
                BinaryOp::GreaterThan
            } else if matches!(self.tokens[self.pos].kind, TokenKind::Lt) {
                BinaryOp::LessThan
            } else if matches!(self.tokens[self.pos].kind, TokenKind::Ge) {
                BinaryOp::GreaterThanOrEquals
            } else {
                BinaryOp::LessThanOrEquals
            };
            self.bump();
            let rhs = self.parse_additive()?;
            e = Expr { kind: ExprKind::Binary { op, left: Box::new(e), right: Box::new(rhs) }, span };
        }
        Ok(e)
    }

    /// Parse an additive chain.
    fn parse_additive(&mut self) -> (r: Result<Expr, ParseError>)
        requires
            old(self).wf(),
        ensures
            final(self).wf(),
            final(self).tokens == old(self).tokens,
            old(self).pos <= final(self).pos,
            r is Ok ==> old(self).pos < final(self).pos,
        decreases self.rem(), 5int,
    {
        let first = self.parse_multiplicative()?;
        let mut e = first;
        while !self.at_end() && (matches!(self.tokens[self.pos].kind, TokenKind::Plus) || matches!(
            self.tokens[self.pos].kind,
            TokenKind::Minus,
        ))
            invariant
                self.wf(),
                self.tokens == old(self).tokens,
                old(self).pos < self.pos,
            decreases self.rem(),
        {
            let span = Span::at(self.tokens[self.pos].pos);
            let op = if matches!(self.tokens[self.pos].kind, TokenKind::Plus) {
                BinaryOp::Add
            } else {
                BinaryOp::Subtract
            };
            self.bump();
            let rhs = self.parse_multiplicative()?;
            e = Expr { kind: ExprKind::Binary { op, left: Box::new(e), right: Box::new(rhs) }, span };
        }
        Ok(e)
    }

    /// Parse a multiplicative chain.
    fn parse_multiplicative(&mut self) -> (r: Result<Expr, ParseError>)
        requires
            old(self).wf(),
        ensures
            final(self).wf(),
            final(self).tokens == old(self).tokens,
            old(self).pos <= final(self).pos,
            r is Ok ==> old(self).pos < final(self).pos,
        decreases self.rem(), 4int,
    {
        let first = self.parse_unary()?;
        let mut e = first;
        while !self.at_end() && (matches!(self.tokens[self.pos].kind, TokenKind::Star) || matches!(
            self.tokens[self.pos].kind,
            TokenKind::Slash,
        ))
            invariant
                self.wf(),
                self.tokens == old(self).tokens,
                old(self).pos < self.pos,
            decreases self.rem(),
        {
            let span = Span::at(self.tokens[self.pos].pos);
            let op = if matches!(self.tokens[self.pos].kind, TokenKind::Star) {
                BinaryOp::Multiply
            } else {
                BinaryOp::Divide
            };
            self.bump();
            let rhs = self.parse_unary()?;
            e = Expr { kind: ExprKind::Binary { op, left: Box::new(e), right: Box::new(rhs) }, span };
        }
        Ok(e)
    }

    /// Parse a unary negation or fall through to a postfix expression.
    fn parse_unary(&mut self) -> (r: Result<Expr, ParseError>)
        requires
            old(self).wf(),
        ensures
            final(self).wf(),
            final(self).tokens == old(self).tokens,
            old(self).pos <= final(self).pos,
            r is Ok ==> old(self).pos < final(self).pos,
        decreases self.rem(), 3int,
    {
        if !self.at_end() && matches!(self.tokens[self.pos].kind, TokenKind::Minus) {
            let span = Span::at(self.tokens[self.pos].pos);
            self.bump();
            let inner = self.parse_unary()?;
            Ok(
                Expr {
                    kind: ExprKind::Unary { op: UnaryOp::Negative, expr: Box::new(inner) },
                    span,
                },
            )
        } else {
            self.parse_postfix()
        }
    }

    /// Parse a primary expression followed by calls, index accesses and
    /// property accesses.
    fn parse_postfix(&mut self) -> (r: Result<Expr, ParseError>)
        requires
            old(self).wf(),
        ensures
            final(self).wf(),
            final(self).tokens == old(self).tokens,
            old(self).pos <= final(self).pos,
            r is Ok ==> old(self).pos < final(self).pos,
        decreases self.rem(), 2int,
    {
        let first = self.parse_primary()?;
        let mut e = first;
        while !self.at_end() && (matches!(self.tokens[self.pos].kind, TokenKind::LParen)
            || matches!(self.tokens[self.pos].kind, TokenKind::LBracket) || matches!(
            self.tokens[self.pos].kind,
            TokenKind::Dot,
        ))
            invariant
                self.wf(),
                self.tokens == old(self).tokens,
                old(self).pos < self.pos,
            decreases self.rem(),
        {
            let ghost p0 = self.pos;
            let span = Span::at(self.tokens[self.pos].pos);
            if matches!(self.tokens[self.pos].kind, TokenKind::LParen) {
                self.bump();
                let mut args: Vec<Expr> = Vec::new();
                if !self.at_end() && !matches!(self.tokens[self.pos].kind, TokenKind::RParen) {
                    let a = self.parse_expr()?;
                    args.push(a);
                    while !self.at_end() && matches!(
                        self.tokens[self.pos].kind,
                        TokenKind::Comma,
                    )
                        invariant
                            self.wf(),
                            self.tokens == old(self).tokens,
                            old(self).pos < self.pos,
                            p0 < self.pos,
                        decreases self.rem(),
                    {
                        self.bump();
                        let a2 = self.parse_expr()?;
                        args.push(a2);
                    }
                }
                self.expect(&TokenKind::RParen, "expected `)` after the arguments")?;
                e = Expr { kind: ExprKind::FunctionCall { callee: Box::new(e), args }, span };
            } else if matches!(self.tokens[self.pos].kind, TokenKind::LBracket) {
                self.bump();
                let idx = self.parse_expr()?;
                self.expect(&TokenKind::RBracket, "expected `]` after the index")?;
                e = Expr {
                    kind: ExprKind::IndexAccess { target: Box::new(e), index: Box::new(idx) },
                    span,
                };
            } else {
                self.bump();
                let property = self.expect_ident("expected a property name after `.`")?;
                e = Expr {
                    kind: ExprKind::PropertyAccess { target: Box::new(e), property },
                    span,
                };
            }
        }
        Ok(e)
    }

    /// Parse a literal, a variable reference, or a parenthesized
    /// expression.
    fn parse_primary(&mut self) -> (r: Result<Expr, ParseError>)
        requires
            old(self).wf(),
        ensures
            final(self).wf(),
            final(self).tokens == old(self).tokens,
            old(self).pos <= final(self).pos,
            r is Ok ==> old(self).pos < final(self).pos,
        decreases self.rem(), 1int,
    {
        if self.at_end() {
            return Err(self.err("expected an expression"));
        }
        let span = Span::at(self.tokens[self.pos].pos);
        let next = &self.tokens[self.pos].kind;
        match next {
            TokenKind::Number(v) => {
                let n = *v;
                self.bump();
                Ok(Expr { kind: ExprKind::Literal(LiteralValue::Number(n)), span })
            },
            TokenKind::StrLit(s) => {
                let text = s.clone();
                self.bump();
                Ok(Expr { kind: ExprKind::Literal(LiteralValue::Str(text)), span })
            },
            TokenKind::KwTrue => {
                self.bump();
                Ok(Expr { kind: ExprKind::Literal(LiteralValue::Boolean(true)), span })
            },
            TokenKind::KwFalse => {
                self.bump();
                Ok(Expr { kind: ExprKind::Literal(LiteralValue::Boolean(false)), span })
            },
            TokenKind::Identifier(n) => {
                let name = n.clone();
                self.bump();
                Ok(Expr { kind: ExprKind::Variable(name), span })
            },
            TokenKind::LParen => {
                self.bump();
                let inner = self.parse_expr()?;
                self.expect(&TokenKind::RParen, "expected `)` to close the expression")?;
                Ok(inner)
            },
            TokenKind::LBracket => {
                self.bump();
                let mut items: Vec<Expr> = Vec::new();
                if !self.at_end() && !matches!(self.tokens[self.pos].kind, TokenKind::RBracket) {
                    let a = self.parse_expr()?;
                    items.push(a);
                    while !self.at_end() && matches!(
                        self.tokens[self.pos].kind,
                        TokenKind::Comma,
                    )
                        invariant
                            self.wf(),
                            self.tokens == old(self).tokens,
                            old(self).pos < self.pos,
                        decreases self.rem(),
                    {
                        self.bump();
                        let a2 = self.parse_expr()?;
                        items.push(a2);
                    }
                }
                self.expect(&TokenKind::RBracket, "expected `]` to close the list literal")?;
                Ok(Expr { kind: ExprKind::Literal(LiteralValue::List(items)), span })
            },
            TokenKind::LBrace => {
                self.bump();
                let mut entries: Vec<(Expr, Expr)> = Vec::new();
                if !self.at_end() && !matches!(self.tokens[self.pos].kind, TokenKind::RBrace) {
                    let k = self.parse_expr()?;
                    self.expect(&TokenKind::Colon, "expected `:` in the dict literal")?;
                    let v = self.parse_expr()?;
                    entries.push((k, v));
                    while !self.at_end() && matches!(
                        self.tokens[self.pos].kind,
                        TokenKind::Comma,
                    )
                        invariant
                            self.wf(),
                            self.tokens == old(self).tokens,
                            old(self).pos < self.pos,
                        decreases self.rem(),
                    {
                        self.bump();
                        let k2 = self.parse_expr()?;
                        self.expect(&TokenKind::Colon, "expected `:` in the dict literal")?;
                        let v2 = self.parse_expr()?;
                        entries.push((k2, v2));
                    }
                }
                self.expect(&TokenKind::RBrace, "expected `}` to close the dict literal")?;
                Ok(Expr { kind: ExprKind::Literal(LiteralValue::Dict(entries)), span })
            },
            _ => Err(self.err("expected an expression")),
        }
    }
}

/// Parse raw source text into a program, or a syntax diagnostic with its
/// structured line and column. Empty source is the empty program.
pub fn parse_program(source: &str) -> (r: Result<Program, Diagnostic>)
    ensures
        source@.len() == 0 ==> (r matches Ok(p) && p@.len() == 0),
        source@ == seq!['('] ==> r is Err,
{
    let cs = str_chars(source);
    match tokenize(cs) {
        Err(le) => Err(
            Diagnostic::error(le.message).with_code(String::from_str("syntax")).with_annotation(
                Annotation::primary(Span::at(le.pos), String::from_str("the failure is here")),
            ),
        ),
        Ok(tokens) => {
            let mut p = Parser { tokens, pos: 0 };
            match p.parse_all() {
                Ok(program) => Ok(program),
                Err(pe) => Err(
                    Diagnostic::error(pe.message).with_code(
                        String::from_str("syntax"),
                    ).with_annotation(
                        Annotation::primary(
                            Span::at(pe.pos),
                            String::from_str("the failure is here"),
                        ),
                    ),
                ),
            }
        },
    }
}

} // verus!

//! The abstract syntax tree: node shapes shared by the parser, the
//! semantic analyzer and the evaluator. Built once by the parser and
//! read-only thereafter.

use vstd::prelude::*;

use crate::span::Span;
use crate::types::Type;

verus! {

/// Unary operators.
pub enum UnaryOp {
    Negative,
}

/// Binary operators: arithmetic, comparison and equality.
pub enum BinaryOp {
    Add,
    Subtract,
    Multiply,
    Divide,
    Equals,
    NotEquals,
    GreaterThan,
    LessThan,
    GreaterThanOrEquals,
    LessThanOrEquals,
}

/// A literal as it appears in source: element and entry expressions of
/// list and dict literals are kept unevaluated.
pub enum LiteralValue {
    Number(i64),
    Str(String),
    Boolean(bool),
    List(Vec<Expr>),
    Dict(Vec<(Expr, Expr)>),
}

/// An expression with its source span.
pub struct Expr {
    pub kind: ExprKind,
    pub span: Span,
}

/// The expression variants.
pub enum ExprKind {
    Literal(LiteralValue),
    Variable(String),
    Unary { op: UnaryOp, expr: Box<Expr> },
    Binary { op: BinaryOp, left: Box<Expr>, right: Box<Expr> },
    FunctionCall { callee: Box<Expr>, args: Vec<Expr> },
    IndexAccess { target: Box<Expr>, index: Box<Expr> },
    PropertyAccess { target: Box<Expr>, property: String },
}

/// An immutable variable declaration.
pub struct VarDecl {
    pub name: String,
    pub value: Expr,
}

/// A mutable variable declaration.
pub struct MutDecl {
    pub name: String,
    pub value: Expr,
}

/// A constant declaration: immutable and non-reassignable.
pub struct ConstDecl {
    pub name: String,
    pub value: Expr,
}

/// An assignment to an existing binding.
pub struct VarSet {
    pub name: String,
    pub value: Expr,
}

/// One condition-body pair of a conditional statement.
pub struct CondBlock {
    pub condition: Expr,
    pub body: Vec<Stmt>,
}

/// A conditional: a primary branch, zero or more else-if branches, and an
/// optional else branch.
pub struct ConditionalStmt {
    pub if_block: CondBlock,
    pub elif_blocks: Vec<CondBlock>,
    pub else_block: Option<Vec<Stmt>>,
}

/// A loop statement. Only the pre-condition `while` form executes; the
/// post-condition `until` form parses but is rejected at evaluation.
pub enum LoopStmt {
    While { condition: Expr, body: Vec<Stmt> },
    Until { condition: Expr, body: Vec<Stmt> },
}

/// A function declaration: name, ordered parameters with declared types,
/// and body block.
pub struct FuncDecl {
    pub name: String,
    pub params: Vec<(String, Type)>,
    pub body: Vec<Stmt>,
}

/// A statement with its source span.
pub struct Stmt {
    pub kind: StmtKind,
    pub span: Span,
}

/// The statement variants.
pub enum StmtKind {
    VarDeclaration(VarDecl),
    MutDeclaration(MutDecl),
    ConstDeclaration(ConstDecl),
    VarAssignment(VarSet),
    Print(Vec<Expr>),
    Input { name: String, var_type: Type },
    Conditional(ConditionalStmt),
    Loop(LoopStmt),
    FuncDeclaration(FuncDecl),
    Return(Expr),
    FuncCall(Expr),
}

/// A program: an ordered sequence of statements, executed in order.
pub type Program = Vec<Stmt>;

} // verus!

//! Deep copies of syntax-tree nodes, used when a function declaration is
//! installed into the interpreter's registry while the program itself
//! stays borrowed.

use vstd::prelude::*;

use crate::ast::{
    CondBlock, ConditionalStmt, ConstDecl, Expr, ExprKind, FuncDecl, LiteralValue, LoopStmt,
    MutDecl, Stmt, StmtKind, VarDecl, VarSet,
};
use crate::interpreter::simple_lit_view;
use crate::types::Type;

verus! {

/// The copy is the same statement construct as the original.
pub open spec fn same_stmt_kind(a: StmtKind, b: StmtKind) -> bool {
    match (a, b) {
        (StmtKind::VarDeclaration(_), StmtKind::VarDeclaration(_)) => true,
        (StmtKind::MutDeclaration(_), StmtKind::MutDeclaration(_)) => true,
        (StmtKind::ConstDeclaration(_), StmtKind::ConstDeclaration(_)) => true,
        (StmtKind::VarAssignment(_), StmtKind::VarAssignment(_)) => true,
        (StmtKind::Print(_), StmtKind::Print(_)) => true,
        (StmtKind::Input { .. }, StmtKind::Input { .. }) => true,
        (StmtKind::Conditional(_), StmtKind::Conditional(_)) => true,
        (StmtKind::Loop(_), StmtKind::Loop(_)) => true,
        (StmtKind::FuncDeclaration(_), StmtKind::FuncDeclaration(_)) => true,
        (StmtKind::Return(_), StmtKind::Return(_)) => true,
        (StmtKind::FuncCall(_), StmtKind::FuncCall(_)) => true,
        _ => false,
    }
}

/// What a statement copy preserves of the original: the span, the
/// construct, and the value of an immediate literal `return`.
pub open spec fn stmt_clone_rel(a: Stmt, b: Stmt) -> bool {
    &&& b.span == a.span
    &&& same_stmt_kind(a.kind, b.kind)
    &&& (a.kind matches StmtKind::Return(e) ==> (b.kind matches StmtKind::Return(e2)
        && simple_lit_view(e2) == simple_lit_view(e)))
}

/// Copy a type name.
pub fn type_clone(t: &Type) -> (r: Type)
    decreases *t,
{
    match t {
        Type::Int => Type::Int,
        Type::Float => Type::Float,
        Type::Str => Type::Str,
        Type::Bool => Type::Bool,
        Type::List => Type::List,
        Type::Dict => Type::Dict,
        Type::Void => Type::Void,
        Type::Any => Type::Any,
        Type::Function(ps, ret) => {
            let n = ps.len();
            let mut out: Vec<Type> = Vec::new();
            let mut i: usize = 0;
            while i < n
                invariant
                    n == ps@.len(),
                    i <= n,
                    *t == Type::Function(*ps, *ret),
                decreases n - i,
            {
                proof {
                    broadcast use vstd::std_specs::vec::axiom_vec_index_decreases;

                    assert(decreases_to!(*t => t->Function_0));
                    assert(decreases_to!(*ps => ps@[i as int]));
                }
                out.push(type_clone(&ps[i]));
                i += 1;
            }
            let rc = type_clone(ret);
            Type::Function(out, Box::new(rc))
        },
    }
}

/// Copy an expression tree; the copy keeps the span and evaluates any
/// simple literal to the same value.
pub fn expr_clone(e: &Expr) -> (r: Expr)
    ensures
        r.span == e.span,
        simple_lit_view(r) == simple_lit_view(*e),
    decreases *e,
{
    let span = e.span;
    let kind = match &e.kind {
        ExprKind::Literal(lit) => ExprKind::Literal(literal_clone(lit)),
        ExprKind::Variable(name) => ExprKind::Variable(name.clone()),
        ExprKind::Unary { op, expr } => {
            let o = match op {
                crate::ast::UnaryOp::Negative => crate::ast::UnaryOp::Negative,
            };
            ExprKind::Unary { op: o, expr: Box::new(expr_clone(expr)) }
        },
        ExprKind::Binary { op, left, right } => {
            let o = binop_clone(op);
            ExprKind::Binary {
                op: o,
                left: Box::new(expr_clone(left)),
                right: Box::new(expr_clone(right)),
            }
        },
        ExprKind::FunctionCall { callee, args } => {
            let c = Box::new(expr_clone(callee));
            let n = args.len();
            let mut out: Vec<Expr> = Vec::new();
            let mut i: usize = 0;
            while i < n
                invariant
                    n == args@.len(),
                    i <= n,
                    e.kind matches ExprKind::FunctionCall { callee: c2, args: a2 } && a2 == *args,
                decreases n - i,
            {
                proof {
                    broadcast use vstd::std_specs::vec::axiom_vec_index_decreases;

                    assert(decreases_to!(*e => e.kind));
                    assert(decreases_to!(e.kind => e.kind->FunctionCall_args));
                    assert(decreases_to!(*args => args@[i as int]));
                }
                out.push(expr_clone(&args[i]));
                i += 1;
            }
            ExprKind::FunctionCall { callee: c, args: out }
        },
        ExprKind::IndexAccess { target, index } => ExprKind::IndexAccess {
            target: Box::new(expr_clone(target)),
            index: Box::new(expr_clone(index)),
        },
        ExprKind::PropertyAccess { target, property } => ExprKind::PropertyAccess {
            target: Box::new(expr_clone(target)),
            property: property.clone(),
        },
    };
    Expr { kind, span }
}

/// Copy a binary operator.
pub fn binop_clone(op: &crate::ast::BinaryOp) -> (r: crate::ast::BinaryOp)
    ensures
        r == *op,
{
    match op {
        crate::ast::BinaryOp::Add => crate::ast::BinaryOp::Add,
        crate::ast::BinaryOp::Subtract => crate::ast::BinaryOp::Subtract,
        crate::ast::BinaryOp::Multiply => crate::ast::BinaryOp::Multiply,
        crate::ast::BinaryOp::Divide => crate::ast::BinaryOp::Divide,
        crate::ast::BinaryOp::Equals => crate::ast::BinaryOp::Equals,
        crate::ast::BinaryOp::NotEquals => crate::ast::BinaryOp::NotEquals,
        crate::ast::BinaryOp::GreaterThan => crate::ast::BinaryOp::GreaterThan,
        crate::ast::BinaryOp::LessThan => crate::ast::BinaryOp::LessThan,
        crate::ast::BinaryOp::GreaterThanOrEquals => crate::ast::BinaryOp::GreaterThanOrEquals,
        crate::ast::BinaryOp::LessThanOrEquals => crate::ast::BinaryOp::LessThanOrEquals,
    }
}

/// Copy a literal, including the unevaluated element expressions of list
/// and dict literals; scalar literals keep their values.
pub fn literal_clone(lit: &LiteralValue) -> (r: LiteralValue)
    ensures
        (*lit) matches LiteralValue::Number(n) ==> (r matches LiteralValue::Number(n2) && n2
            == n),
        (*lit) matches LiteralValue::Str(t) ==> (r matches LiteralValue::Str(t2) && t2@ == t@),
        (*lit) matches LiteralValue::Boolean(b) ==> (r matches LiteralValue::Boolean(b2) && b2
            == b),
        (*lit) is List <==> r is List,
        (*lit) is Dict <==> r is Dict,
    decreases *lit,
{
    match lit {
        LiteralValue::Number(n) => LiteralValue::Number(*n),
        LiteralValue::Str(s) => LiteralValue::Str(s.clone()),
        LiteralValue::Boolean(b) => LiteralValue::Boolean(*b),
        LiteralValue::List(es) => {
            let n = es.len();
            let mut out: Vec<Expr> = Vec::new();
            let mut i: usize = 0;
            while i < n
                invariant
                    n == es@.len(),
                    i <= n,
                    *lit == LiteralValue::List(*es),
                decreases n - i,
            {
                proof {
                    broadcast use vstd::std_specs::vec::axiom_vec_index_decreases;

                    assert(decreases_to!(*lit => lit->List_0));
                    assert(decreases_to!(*es => es@[i as int]));
                }
                out.push(expr_clone(&es[i]));
                i += 1;
            }
            LiteralValue::List(out)
        },
        LiteralValue::Dict(ps) => {
            let n = ps.len();
            let mut out: Vec<(Expr, Expr)> = Vec::new();
            let mut i: usize = 0;
            while i < n
                invariant
                    n == ps@.len(),
                    i <= n,
                    *lit == LiteralValue::Dict(*ps),
                decreases n - i,
            {
                proof {
                    broadcast use vstd::std_specs::vec::axiom_vec_index_decreases;

                    assert(decreases_to!(*lit => lit->Dict_0));
                    assert(decreases_to!(*ps => ps@[i as int]));
                    assert(decreases_to!(ps@[i as int] => ps@[i as int].0));
                    assert(decreases_to!(ps@[i as int] => ps@[i as int].1));
                }
                let pair = (expr_clone(&ps[i].0), expr_clone(&ps[i].1));
                out.push(pair);
                i += 1;
            }
            LiteralValue::Dict(out)
        },
    }
}

/// Copy a block of statements; each copy keeps its statement's span,
/// construct and immediate literal return.
pub fn block_clone(stmts: &Vec<Stmt>) -> (r: Vec<Stmt>)
    ensures
        r@.len() == stmts@.len(),
        forall|i: int| 0 <= i < stmts@.len() ==> stmt_clone_rel(stmts@[i], #[trigger] r@[i]),
    decreases *stmts,
{
    let n = stmts.len();
    let mut out: Vec<Stmt> = Vec::new();
    let mut i: usize = 0;
    while i < n
        invariant
            n == stmts@.len(),
            i <= n,
            out@.len() == i,
            forall|k: int| 0 <= k < i ==> stmt_clone_rel(stmts@[k], #[trigger] out@[k]),
        decreases n - i,
    {
        proof {
            broadcast use vstd::std_specs::vec::axiom_vec_index_decreases;

            assert(decreases_to!(*stmts => stmts@[i as int]));
        }
        out.push(stmt_clone(&stmts[i]));
        i += 1;
    }
    out
}

/// Copy one condition-body pair.
pub fn cond_block_clone(cb: &CondBlock) -> (r: CondBlock)
    decreases *cb,
{
    CondBlock { condition: expr_clone(&cb.condition), body: block_clone(&cb.body) }
}

/// Copy a function declaration, keeping its name and parameter list
/// exactly.
pub fn func_clone(fd: &FuncDecl) -> (r: FuncDecl)
    ensures
        r.name@ == fd.name@,
        r.params@.len() == fd.params@.len(),
        forall|i: int|
            0 <= i < fd.params@.len() ==> (#[trigger] r.params@[i]).0@ == fd.params@[i].0@,
        r.body@.len() == fd.body@.len(),
        forall|i: int|
            0 <= i < fd.body@.len() ==> stmt_clone_rel(fd.body@[i], #[trigger] r.body@[i]),
    decreases *fd,
{
    let n = fd.params.len();
    let mut params: Vec<(String, Type)> = Vec::new();
    let mut i: usize = 0;
    while i < n
        invariant
            n == fd.params@.len(),
            i <= n,
            params@.len() == i,
            forall|k: int| 0 <= k < i ==> (#[trigger] params@[k]).0@ == fd.params@[k].0@,
        decreases n - i,
    {
        let pair = (fd.params[i].0.clone(), type_clone(&fd.params[i].1));
        params.push(pair);
        i += 1;
    }
    FuncDecl { name: fd.name.clone(), params, body: block_clone(&fd.body) }
}

/// Copy a statement tree; the copy keeps the span, the construct, and
/// the value of an immediate literal `return`.
pub fn stmt_clone(s: &Stmt) -> (r: Stmt)
    ensures
        stmt_clone_rel(*s, r),
    decreases *s,
{
    let span = s.span;
    let kind = match &s.kind {
        StmtKind::VarDeclaration(d) => StmtKind::VarDeclaration(
            VarDecl { name: d.name.clone(), value: expr_clone(&d.value) },
        ),
        StmtKind::MutDeclaration(d) => StmtKind::MutDeclaration(
            MutDecl { name: d.name.clone(), value: expr_clone(&d.value) },
        ),
        StmtKind::ConstDeclaration(d) => StmtKind::ConstDeclaration(
            ConstDecl { name: d.name.clone(), value: expr_clone(&d.value) },
        ),
        StmtKind::VarAssignment(d) => StmtKind::VarAssignment(
            VarSet { name: d.name.clone(), value: expr_clone(&d.value) },
        ),
        StmtKind::Print(es) => {
            let n = es.len();
            let mut out: Vec<Expr> = Vec::new();
            let mut i: usize = 0;
            while i < n
                invariant
                    n == es@.len(),
                    i <= n,
                    s.kind matches StmtKind::Print(e2) && e2 == *es,
                decreases n - i,
            {
                out.push(expr_clone(&es[i]));
                i += 1;
            }
            StmtKind::Print(out)
        },
        StmtKind::Input { name, var_type } => StmtKind::Input {
            name: name.clone(),
            var_type: type_clone(var_type),
        },
        StmtKind::Conditional(c) => {
            let if_block = cond_block_clone(&c.if_block);
            let n = c.elif_blocks.len();
            let mut elifs: Vec<CondBlock> = Vec::new();
            let mut i: usize = 0;
            while i < n
                invariant
                    n == c.elif_blocks@.len(),
                    i <= n,
                    s.kind matches StmtKind::Conditional(c2) && c2 == *c,
                decreases n - i,
            {
                proof {
                    broadcast use vstd::std_specs::vec::axiom_vec_index_decreases;

                    assert(decreases_to!(*s => s.kind));
                    assert(decreases_to!(s.kind => s.kind->Conditional_0));
                    assert(decreases_to!(*c => c.elif_blocks));
                    assert(decreases_to!(c.elif_blocks => c.elif_blocks@[i as int]));
                }
                elifs.push(cond_block_clone(&c.elif_blocks[i]));
                i += 1;
            }
            let else_block = match &c.else_block {
                Some(b) => {
                    proof {
                        assert(decreases_to!(*s => s.kind));
                        assert(decreases_to!(s.kind => s.kind->Conditional_0));
                        assert(decreases_to!(*c => c.else_block));
                    }
                    Some(block_clone(b))
                },
                None => None,
            };
            StmtKind::Conditional(
                ConditionalStmt { if_block, elif_blocks: elifs, else_block },
            )
        },
        StmtKind::Loop(l) => {
            match l {
                LoopStmt::While { condition, body } => StmtKind::Loop(
                    LoopStmt::While {
                        condition: expr_clone(condition),
                        body: block_clone(body),
                    },
                ),
                LoopStmt::Until { condition, body } => StmtKind::Loop(
                    LoopStmt::Until {
                        condition: expr_clone(condition),
                        body: block_clone(body),
                    },
                ),
            }
        },
        StmtKind::FuncDeclaration(fd) => StmtKind::FuncDeclaration(func_clone(fd)),
        StmtKind::Return(e) => StmtKind::Return(expr_clone(e)),
        StmtKind::FuncCall(e) => StmtKind::FuncCall(expr_clone(e)),
    };
    Stmt { kind, span }
}

} // verus!

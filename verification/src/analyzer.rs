//! The semantic analyzer: a single read-only pre-execution pass that
//! collects diagnostics (never stopping at the first) for a subset of
//! invalid programs: names referenced before any declaration, calls whose
//! argument count contradicts the called declaration, literal-level type
//! mismatches in conditions and operators, and unsupported input types.
//!
//! The analyzer mirrors the evaluator's scoping: conditional branches
//! declare into the enclosing scope, loop bodies open a nested scope, and
//! a function body sees only the global scope and its own parameters.

use vstd::prelude::*;

use crate::ast::{
    BinaryOp, Expr, ExprKind, LiteralValue, LoopStmt, Program, Stmt, StmtKind,
};
use crate::diagnostics::{Annotation, Diagnostic};
use crate::span::Span;
use crate::text::str_eq;
use crate::types::Type;

verus! {

/// One name visible to the analysis, with the declared arity when the
/// name was bound by a function declaration.
pub struct SeenName {
    pub name: String,
    pub arity: Option<usize>,
}

/// Whether any scope declares the name.
pub open spec fn name_seen(scopes: Seq<Vec<SeenName>>, name: Seq<char>) -> bool {
    exists|a: int, b: int|
        0 <= a < scopes.len() && 0 <= b < scopes[a]@.len() && (#[trigger] scopes[a]@[b]).name@
            == name
}

/// The analyzer: collects diagnostics over a transient symbol view and
/// never mutates bindings.
pub struct SemanticAnalyzer {
    /// The diagnostics collected so far, in traversal order.
    pub errors: Vec<Diagnostic>,
    pub scopes: Vec<Vec<SeenName>>,
}

impl SemanticAnalyzer {
    /// A fresh analyzer with no findings.
    pub fn new() -> (r: SemanticAnalyzer)
        ensures
            r.errors@.len() == 0,
            r.wf(),
            r.scopes@.len() == 1,
    {
        let mut scopes: Vec<Vec<SeenName>> = Vec::new();
        scopes.push(Vec::new());
        SemanticAnalyzer { errors: Vec::new(), scopes }
    }

    /// Pre-declare a global name (a host-registered native callable or
    /// module) before analysis.
    pub fn predeclare(&mut self, name: String)
        requires
            old(self).scopes@.len() >= 1,
        ensures
            final(self).scopes@.len() == old(self).scopes@.len(),
            final(self).errors@ == old(self).errors@,
    {
        let frame = &mut self.scopes[0];
        frame.push(SeenName { name, arity: None });
        proof {
            assert(self.errors@ =~= old(self).errors@);
        }
    }

    pub open spec fn wf(self) -> bool {
        self.scopes@.len() >= 1
    }

    fn report(&mut self, message: &str, span: Span)
        requires
            old(self).wf(),
        ensures
            final(self).wf(),
            final(self).scopes == old(self).scopes,
            final(self).errors@.len() == old(self).errors@.len() + 1,
    {
        let d = Diagnostic::error(String::from_str(message)).with_code(
            String::from_str("semantic"),
        ).with_annotation(Annotation::primary(span, String::from_str("here")));
        self.errors.push(d);
    }

    /// Whether a name is visible, and its declared arity if it names a
    /// declared function.
    fn resolve(&self, name: &String) -> (r: Option<Option<usize>>)
        requires
            self.wf(),
        ensures
            r is Some <==> name_seen(self.scopes@, name@),
    {
        let ns = self.scopes.len();
        let mut fi: usize = ns;
        while fi > 0
            invariant
                self.wf(),
                fi <= self.scopes@.len(),
                forall|a: int, b: int|
                    fi <= a < self.scopes@.len() && 0 <= b < self.scopes@[a]@.len() ==> (
                    #[trigger] self.scopes@[a]@[b]).name@ != name@,
            decreases fi,
        {
            fi = fi - 1;
            let frame = &self.scopes[fi];
            let m = frame.len();
            let mut j: usize = m;
            while j > 0
                invariant
                    fi < self.scopes@.len(),
                    j <= self.scopes@[fi as int]@.len(),
                    forall|b: int|
                        j <= b < self.scopes@[fi as int]@.len() ==> (
                        #[trigger] self.scopes@[fi as int]@[b]).name@ != name@,
                decreases j,
            {
                j = j - 1;
                if str_eq(self.scopes[fi][j].name.as_str(), name.as_str()) {
                    return Some(self.scopes[fi][j].arity);
                }
            }
        }
        None
    }

    fn declare(&mut self, name: String, arity: Option<usize>)
        requires
            old(self).wf(),
        ensures
            final(self).wf(),
            final(self).scopes@.len() == old(self).scopes@.len(),
            final(self).errors@ == old(self).errors@,
    {
        let top = self.scopes.len() - 1;
        let frame = &mut self.scopes[top];
        frame.push(SeenName { name, arity });
    }

    /// Analyze a whole program, collecting diagnostics into `errors`.
    pub fn analyze(&mut self, program: &Program)
        requires
            old(self).wf(),
        ensures
            final(self).wf(),
            old(self).errors@.len() <= final(self).errors@.len(),
            program@.len() == 0 ==> final(self).errors@ == old(self).errors@,
            program@.len() >= 1 ==> (program@[0].kind matches StmtKind::VarAssignment(d)
                ==> !name_seen(old(self).scopes@, d.name@) ==> final(self).errors@.len() > old(
                self,
            ).errors@.len()),
    {
        let n = program.len();
        let mut i: usize = 0;
        let ghost e0 = self.errors@;
        while i < n
            invariant
                self.wf(),
                n == program@.len(),
                i <= n,
                e0 == old(self).errors@,
                e0.len() <= self.errors@.len(),
                n == 0 ==> self.errors@ == e0,
                n >= 1 ==> (program@[0].kind matches StmtKind::VarAssignment(d) ==> !name_seen(
                    old(self).scopes@,
                    d.name@,
                ) ==> ((i == 0 && self.errors@ == e0 && self.scopes == old(self).scopes)
                    || self.errors@.len() > e0.len())),
            decreases n - i,
        {
            proof {
                broadcast use vstd::std_specs::vec::axiom_vec_index_decreases;

                assert(decreases_to!(*program => program@[i as int]));
            }
            self.check_stmt(&program[i]);
            i += 1;
        }
    }

    /// Analyze one statement.
    fn check_stmt(&mut self, s: &Stmt)
        requires
            old(self).wf(),
        ensures
            final(self).wf(),
            final(self).scopes@.len() == old(self).scopes@.len(),
            old(self).errors@.len() <= final(self).errors@.len(),
            s.kind matches StmtKind::VarAssignment(d) ==> !name_seen(old(self).scopes@, d.name@)
                ==> final(self).errors@.len() > old(self).errors@.len(),
        decreases *s,
    {
        match &s.kind {
            StmtKind::VarDeclaration(d) => {
                self.check_expr(&d.value);
                self.declare(d.name.clone(), None);
            },
            StmtKind::MutDeclaration(d) => {
                self.check_expr(&d.value);
                self.declare(d.name.clone(), None);
            },
            StmtKind::ConstDeclaration(d) => {
                self.check_expr(&d.value);
                self.declare(d.name.clone(), None);
            },
            StmtKind::VarAssignment(d) => {
                self.check_expr(&d.value);
                if matches!(self.resolve(&d.name), Option::None) {
                    self.report("assignment to a name that is not declared", s.span);
                }
            },
            StmtKind::Print(es) => {
                let n = es.len();
                let mut i: usize = 0;
                while i < n
                    invariant
                        self.wf(),
                        n == es@.len(),
                        i <= n,
                        self.scopes@.len() == old(self).scopes@.len(),
                        old(self).errors@.len() <= self.errors@.len(),
                    decreases n - i,
                {
                    self.check_expr(&es[i]);
                    i += 1;
                }
            },
            StmtKind::Input { name, var_type } => {
                let supported = matches!(
                    var_type,
                    Type::Str | Type::Int | Type::Float | Type::Bool,
                );
                if !supported {
                    self.report("the declared input type cannot be read from the console", s.span);
                }
                self.declare(name.clone(), None);
            },
            StmtKind::Conditional(c) => {
                self.check_condition(&c.if_block.condition);
                self.check_block_here(&c.if_block.body);
                let n = c.elif_blocks.len();
                let mut i: usize = 0;
                while i < n
                    invariant
                        self.wf(),
                        n == c.elif_blocks@.len(),
                        i <= n,
                        s.kind matches StmtKind::Conditional(cc) && cc == *c,
                        self.scopes@.len() == old(self).scopes@.len(),
                        old(self).errors@.len() <= self.errors@.len(),
                    decreases n - i,
                {
                    proof {
                        broadcast use vstd::std_specs::vec::axiom_vec_index_decreases;

                        assert(decreases_to!(*s => s.kind));
                        assert(decreases_to!(s.kind => s.kind->Conditional_0));
                        assert(decreases_to!(*c => c.elif_blocks));
                        assert(decreases_to!(c.elif_blocks => c.elif_blocks@[i as int]));
                    }
                    self.check_condition(&c.elif_blocks[i].condition);
                    self.check_block_here(&c.elif_blocks[i].body);
                    i += 1;
                }
                match &c.else_block {
                    Some(b) => {
                        proof {
                            assert(decreases_to!(*s => s.kind));
                            assert(decreases_to!(s.kind => s.kind->Conditional_0));
                            assert(decreases_to!(*c => c.else_block));
                        }
                        self.check_block_here(b);
                    },
                    None => {},
                }
            },
            StmtKind::Loop(l) => {
                match l {
                    LoopStmt::While { condition, body } => {
                        self.check_condition(condition);
                        self.scopes.push(Vec::new());
                        self.check_block_here(body);
                        self.scopes.pop();
                    },
                    LoopStmt::Until { condition, body } => {
                        self.check_condition(condition);
                        self.scopes.push(Vec::new());
                        self.check_block_here(body);
                        self.scopes.pop();
                    },
                }
            },
            StmtKind::FuncDeclaration(fd) => {
                self.declare(fd.name.clone(), Some(fd.params.len()));
                // the body sees only the global scope and the parameters
                let mut saved: Vec<Vec<SeenName>> = Vec::new();
                let depth = self.scopes.len();
                let mut k: usize = 1;
                while k < depth
                    invariant
                        self.wf(),
                        depth == old(self).scopes@.len(),
                        depth >= 1,
                        self.scopes@.len() + saved@.len() == depth,
                        self.scopes@.len() >= 1,
                        k == saved@.len() + 1,
                        k <= depth,
                        old(self).errors@.len() <= self.errors@.len(),
                    decreases depth - k,
                {
                    match self.scopes.pop() {
                        Some(f) => saved.push(f),
                        None => {},
                    }
                    k += 1;
                }
                self.scopes.push(Vec::new());
                let np = fd.params.len();
                let mut pi: usize = 0;
                while pi < np
                    invariant
                        self.wf(),
                        np == fd.params@.len(),
                        pi <= np,
                        self.scopes@.len() + saved@.len() == depth + 1,
                        saved@.len() < depth || (saved@.len() == 0 && depth >= 1),
                        old(self).errors@.len() <= self.errors@.len(),
                    decreases np - pi,
                {
                    self.declare(fd.params[pi].0.clone(), None);
                    pi += 1;
                }
                proof {
                    assert(decreases_to!(*s => s.kind));
                    assert(decreases_to!(s.kind => s.kind->FuncDeclaration_0));
                    assert(decreases_to!(*fd => fd.body));
                }
                self.check_block_here(&fd.body);
                self.scopes.pop();
                let ns = saved.len();
                let mut m: usize = 0;
                while m < ns
                    invariant
                        ns == saved@.len() + m,
                        m <= ns,
                        ns < depth || (ns == 0 && depth >= 1),
                        self.scopes@.len() == depth - ns + m,
                        self.scopes@.len() >= 1,
                        old(self).errors@.len() <= self.errors@.len(),
                    decreases ns - m,
                {
                    match saved.pop() {
                        Some(f) => self.scopes.push(f),
                        None => {},
                    }
                    m += 1;
                }
            },
            StmtKind::Return(e) => {
                self.check_expr(e);
            },
            StmtKind::FuncCall(e) => {
                self.check_expr(e);
            },
        }
    }

    /// Analyze a block in the current scope, as conditionals execute.
    fn check_block_here(&mut self, stmts: &Vec<Stmt>)
        requires
            old(self).wf(),
        ensures
            final(self).wf(),
            final(self).scopes@.len() == old(self).scopes@.len(),
            old(self).errors@.len() <= final(self).errors@.len(),
        decreases *stmts,
    {
        let n = stmts.len();
        let mut i: usize = 0;
        while i < n
            invariant
                self.wf(),
                n == stmts@.len(),
                i <= n,
                self.scopes@.len() == old(self).scopes@.len(),
                old(self).errors@.len() <= self.errors@.len(),
            decreases n - i,
        {
            proof {
                broadcast use vstd::std_specs::vec::axiom_vec_index_decreases;

                assert(decreases_to!(*stmts => stmts@[i as int]));
            }
            self.check_stmt(&stmts[i]);
            i += 1;
        }
    }

    /// A condition whose literal is visibly not a Boolean can never
    /// branch.
    fn check_condition(&mut self, e: &Expr)
        requires
            old(self).wf(),
        ensures
            final(self).wf(),
            final(self).scopes == old(self).scopes,
            old(self).errors@.len() <= final(self).errors@.len(),
        decreases *e, 1int,
    {
        let bad = match &e.kind {
            ExprKind::Literal(LiteralValue::Number(_)) => true,
            ExprKind::Literal(LiteralValue::Str(_)) => true,
            ExprKind::Literal(LiteralValue::List(_)) => true,
            ExprKind::Literal(LiteralValue::Dict(_)) => true,
            _ => false,
        };
        if bad {
            self.report("a condition must evaluate to a Boolean", e.span);
        }
        self.check_expr(e);
    }

    /// Analyze one expression.
    fn check_expr(&mut self, e: &Expr)
        requires
            old(self).wf(),
        ensures
            final(self).wf(),
            final(self).scopes == old(self).scopes,
            old(self).errors@.len() <= final(self).errors@.len(),
        decreases *e, 0int,
    {
        match &e.kind {
            ExprKind::Literal(lit) => {
                match lit {
                    LiteralValue::List(es) => {
                        let n = es.len();
                        let mut i: usize = 0;
                        while i < n
                            invariant
                                self.wf(),
                                n == es@.len(),
                                i <= n,
                                *e == (Expr {
                                    kind: ExprKind::Literal(LiteralValue::List(*es)),
                                    span: e.span,
                                }),
                                self.scopes == old(self).scopes,
                                old(self).errors@.len() <= self.errors@.len(),
                            decreases n - i,
                        {
                            proof {
                                broadcast use vstd::std_specs::vec::axiom_vec_index_decreases;

                                assert(decreases_to!(*e => e.kind));
                                assert(decreases_to!(e.kind => e.kind->Literal_0));
                                assert(decreases_to!(e.kind->Literal_0 => e.kind->Literal_0->List_0));
                                assert(decreases_to!(*es => es@[i as int]));
                            }
                            self.check_expr(&es[i]);
                            i += 1;
                        }
                    },
                    LiteralValue::Dict(ps) => {
                        let n = ps.len();
                        let mut i: usize = 0;
                        while i < n
                            invariant
                                self.wf(),
                                n == ps@.len(),
                                i <= n,
                                *e == (Expr {
                                    kind: ExprKind::Literal(LiteralValue::Dict(*ps)),
                                    span: e.span,
                                }),
                                self.scopes == old(self).scopes,
                                old(self).errors@.len() <= self.errors@.len(),
                            decreases n - i,
                        {
                            proof {
                                broadcast use vstd::std_specs::vec::axiom_vec_index_decreases;

                                assert(decreases_to!(*e => e.kind));
                                assert(decreases_to!(e.kind => e.kind->Literal_0));
                                assert(decreases_to!(e.kind->Literal_0 => e.kind->Literal_0->Dict_0));
                                assert(decreases_to!(*ps => ps@[i as int]));
                                assert(decreases_to!(ps@[i as int] => ps@[i as int].0));
                                assert(decreases_to!(ps@[i as int] => ps@[i as int].1));
                            }
                            self.check_expr(&ps[i].0);
                            self.check_expr(&ps[i].1);
                            i += 1;
                        }
                    },
                    _ => {},
                }
            },
            ExprKind::Variable(name) => {
                if matches!(self.resolve(name), Option::None) {
                    self.report("reference to a name that is not declared", e.span);
                }
            },
            ExprKind::Unary { op: _, expr } => {
                let bad = match &expr.kind {
                    ExprKind::Literal(LiteralValue::Str(_)) => true,
                    ExprKind::Literal(LiteralValue::Boolean(_)) => true,
                    ExprKind::Literal(LiteralValue::List(_)) => true,
                    ExprKind::Literal(LiteralValue::Dict(_)) => true,
                    _ => false,
                };
                if bad {
                    self.report("unary `-` applies only to Numbers", e.span);
                }
                self.check_expr(expr);
            },
            ExprKind::Binary { op, left, right } => {
                self.check_literal_operands(op, left, right, e.span);
                self.check_expr(left);
                self.check_expr(right);
            },
            ExprKind::FunctionCall { callee, args } => {
                match &callee.kind {
                    ExprKind::Variable(name) => {
                        match self.resolve(name) {
                            None => {
                                self.report("call of a name that is not declared", e.span);
                            },
                            Some(Some(expected)) => {
                                if args.len() != expected {
                                    self.report(
                                        "the call passes a different number of arguments than the function declares",
                                        e.span,
                                    );
                                }
                            },
                            Some(None) => {},
                        }
                    },
                    ExprKind::PropertyAccess { target, property: _ } => {
                        match &target.kind {
                            ExprKind::Variable(name) => {
                                if matches!(self.resolve(name), Option::None) {
                                    self.report(
                                        "method call on a name that is not declared",
                                        e.span,
                                    );
                                }
                            },
                            _ => {},
                        }
                    },
                    _ => {
                        proof {
                            assert(decreases_to!(*e => e.kind));
                            assert(decreases_to!(e.kind => e.kind->FunctionCall_callee));
                        }
                        self.check_expr(callee);
                    },
                }
                let n = args.len();
                let mut i: usize = 0;
                while i < n
                    invariant
                        self.wf(),
                        n == args@.len(),
                        i <= n,
                        e.kind matches ExprKind::FunctionCall { callee: c2, args: a2 } && a2
                            == *args,
                        self.scopes == old(self).scopes,
                        old(self).errors@.len() <= self.errors@.len(),
                    decreases n - i,
                {
                    proof {
                        broadcast use vstd::std_specs::vec::axiom_vec_index_decreases;

                        assert(decreases_to!(*e => e.kind));
                        assert(decreases_to!(e.kind => e.kind->FunctionCall_args));
                        assert(decreases_to!(*args => args@[i as int]));
                    }
                    self.check_expr(&args[i]);
                    i += 1;
                }
            },
            ExprKind::IndexAccess { target, index } => {
                self.check_expr(target);
                self.check_expr(index);
            },
            ExprKind::PropertyAccess { target, property: _ } => {
                self.check_expr(target);
            },
        }
    }

    /// Literal-level operand type mismatches, detectable without running
    /// the program.
    fn check_literal_operands(&mut self, op: &BinaryOp, left: &Expr, right: &Expr, span: Span)
        requires
            old(self).wf(),
        ensures
            final(self).wf(),
            final(self).scopes == old(self).scopes,
            old(self).errors@.len() <= final(self).errors@.len(),
    {
        let lnum = matches!(left.kind, ExprKind::Literal(LiteralValue::Number(_)));
        let rnum = matches!(right.kind, ExprKind::Literal(LiteralValue::Number(_)));
        let lstr = matches!(left.kind, ExprKind::Literal(LiteralValue::Str(_)));
        let rstr = matches!(right.kind, ExprKind::Literal(LiteralValue::Str(_)));
        let lother = matches!(
            left.kind,
            ExprKind::Literal(LiteralValue::Boolean(_)) | ExprKind::Literal(
                LiteralValue::List(_),
            ) | ExprKind::Literal(LiteralValue::Dict(_)),
        );
        let rother = matches!(
            right.kind,
            ExprKind::Literal(LiteralValue::Boolean(_)) | ExprKind::Literal(
                LiteralValue::List(_),
            ) | ExprKind::Literal(LiteralValue::Dict(_)),
        );
        match op {
            BinaryOp::Add => {
                if (lother && rother) || (lnum && rother) || (lother && rnum) {
                    self.report("`+` applies only to Numbers and Strings", span);
                }
            },
            BinaryOp::Subtract | BinaryOp::Multiply | BinaryOp::Divide => {
                if lstr || rstr || lother || rother {
                    self.report("this arithmetic operator applies only to Numbers", span);
                }
            },
            BinaryOp::GreaterThan | BinaryOp::LessThan | BinaryOp::GreaterThanOrEquals
                | BinaryOp::LessThanOrEquals => {
                if lstr || rstr || lother || rother {
                    self.report("comparison operators apply only to Numbers", span);
                }
            },
            _ => {},
        }
    }
}

} // verus!

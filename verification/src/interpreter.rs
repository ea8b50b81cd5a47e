//! The evaluator: tree-walking execution of a validated program against
//! the binding table, with a structured control-flow outcome for `return`
//! and fail-fast runtime diagnostics.
//!
//! Every recursive step and every loop iteration spends one unit of an
//! evaluation budget; the plain entry point supplies a budget no real
//! execution exhausts, and a host that wants a hard step bound can supply
//! its own.

use std::rc::Rc;

use vstd::prelude::*;

use crate::ast::{BinaryOp, Expr, ExprKind, FuncDecl, LiteralValue, LoopStmt, Program, Stmt, StmtKind};
use crate::ast_clone::func_clone;
use crate::analyzer::SemanticAnalyzer;
use crate::diagnostics::Diagnostic;
use crate::parser::parse_program;
use crate::dict::{dict_insert, dict_set, lemma_dict_set_props};
use crate::errors::{InterpretResult, RuntimeError};
use crate::host::{printed_grows, Host};
use crate::input::{coerce_input, trim_chars};
use crate::ops::{
    add_values, compare_values, divide_values, equality_values, index_values, multiply_values,
    negate_value, spec_binop, spec_index, spec_negate, subtract_values,
};
use crate::render::{render_chars, render_spec};
use crate::symbol_table::{
    cur_floor, frame_lookup, lemma_lookup_wf, lookup, lookup_visible, table_shape_wf,
    table_values_wf, AssignOutcome, Symbol, SymbolTable,
};
use crate::text::{chars_to_string, str_chars, str_eq};
use crate::value::{
    lemma_seq_view, lemma_value_wf_mono, pair_seq_view, seq_view, value_wf, value_wf_check,
    FunRef, Value, ValueView,
};

verus! {

/// How a statement or block finished: normally, or by carrying a returned
/// value up to the enclosing function call.
pub enum Flow {
    Normal,
    Return(Value),
}

/// The interpreter: the binding table and the registry of declared
/// functions, which function values reference by index.
pub struct Interpreter {
    pub globals: SymbolTable,
    pub functions: Vec<Rc<FuncDecl>>,
}

/// The interpreter's invariant: the table is well-shaped and every stored
/// value is well-formed for the current function registry.
pub open spec fn interp_wf(it: Interpreter) -> bool {
    &&& table_shape_wf(it.globals)
    &&& table_values_wf(it.globals, it.functions@.len() as nat)
}

/// How one evaluation step may change the interpreter: the function
/// registry only grows, existing entries stay, and the scope structure is
/// restored.
pub open spec fn evolves(pre: Interpreter, post: Interpreter) -> bool {
    &&& pre.functions@.len() <= post.functions@.len()
    &&& forall|k: int|
        0 <= k < pre.functions@.len() ==> post.functions@[k] == #[trigger] pre.functions@[k]
    &&& post.globals.scopes@.len() == pre.globals.scopes@.len()
    &&& post.globals.floors@ == pre.globals.floors@
}

/// Well-formedness of a control-flow outcome's carried value.
pub open spec fn flow_wf(f: Flow, flen: nat) -> bool {
    match f {
        Flow::Return(v) => value_wf(v@, flen),
        Flow::Normal => true,
    }
}

/// Every value of a list is well-formed.
pub open spec fn vals_wf(vs: Seq<Value>, flen: nat) -> bool {
    forall|i: int| 0 <= i < vs.len() ==> value_wf((#[trigger] vs[i])@, flen)
}

/// The view a simple literal expression evaluates to, if it is one.
pub open spec fn simple_lit_view(e: Expr) -> Option<ValueView> {
    match e.kind {
        ExprKind::Literal(LiteralValue::Number(n)) => Some(ValueView::Number(n)),
        ExprKind::Literal(LiteralValue::Str(s)) => Some(ValueView::Str(s@)),
        ExprKind::Literal(LiteralValue::Boolean(b)) => Some(ValueView::Boolean(b)),
        _ => None,
    }
}

/// A deterministic runtime failure, at the specification level.
pub enum ErrView {
    DivisionByZero,
    NumericOverflow,
    BadUnaryOperand,
    BadBinaryOperands,
    NotIndexable(ValueView),
    ListIndexNotNumber(int, ValueView),
    IndexOutOfBounds(int, int),
    KeyNotFound(ValueView),
    Unbound(Seq<char>),
}

/// Whether an executable outcome carries exactly the specified one.
pub open spec fn result_rel(
    spec_res: Result<ValueView, ErrView>,
    r: Result<Value, RuntimeError>,
) -> bool {
    match spec_res {
        Ok(vv) => r matches Ok(v) && v@ == vv,
        Err(ev) => match ev {
            ErrView::DivisionByZero => r matches Err(RuntimeError::DivisionByZero),
            ErrView::NumericOverflow => r matches Err(RuntimeError::NumericOverflow),
            ErrView::BadUnaryOperand => r matches Err(RuntimeError::BadUnaryOperand),
            ErrView::BadBinaryOperands => r matches Err(RuntimeError::BadBinaryOperands),
            ErrView::NotIndexable(tv) => r matches Err(RuntimeError::NotIndexable { target })
                && target@ == tv,
            ErrView::ListIndexNotNumber(l, iv) => r matches Err(
                RuntimeError::ListIndexNotNumber { len, index },
            ) && len == l && index@ == iv,
            ErrView::IndexOutOfBounds(l, ix) => r matches Err(
                RuntimeError::IndexOutOfBounds { len, index },
            ) && len == l && index == ix,
            ErrView::KeyNotFound(kv) => r matches Err(RuntimeError::KeyNotFound { key }) && key@
                == kv,
            ErrView::Unbound(n) => r matches Err(RuntimeError::UnboundVariable { name })
                && name@ == n,
        },
    }
}

/// What a binary operator yields, at the specification level.
pub open spec fn binop_view(op: BinaryOp, a: ValueView, b: ValueView) -> Result<
    ValueView,
    ErrView,
> {
    match op {
        BinaryOp::Add => match (a, b) {
            (ValueView::Number(x), ValueView::Number(y)) => if i64::MIN <= x + y <= i64::MAX {
                Ok(ValueView::Number((x + y) as i64))
            } else {
                Err(ErrView::NumericOverflow)
            },
            (ValueView::Str(x), ValueView::Str(y)) => Ok(ValueView::Str(x + y)),
            (ValueView::Str(x), other) => Ok(ValueView::Str(x + render_spec(other))),
            (other, ValueView::Str(y)) => Ok(ValueView::Str(render_spec(other) + y)),
            _ => Err(ErrView::BadBinaryOperands),
        },
        BinaryOp::Subtract => match (a, b) {
            (ValueView::Number(x), ValueView::Number(y)) => if i64::MIN <= x - y <= i64::MAX {
                Ok(ValueView::Number((x - y) as i64))
            } else {
                Err(ErrView::NumericOverflow)
            },
            _ => Err(ErrView::BadBinaryOperands),
        },
        BinaryOp::Multiply => match (a, b) {
            (ValueView::Number(x), ValueView::Number(y)) => if i64::MIN <= x * y <= i64::MAX {
                Ok(ValueView::Number((x * y) as i64))
            } else {
                Err(ErrView::NumericOverflow)
            },
            _ => Err(ErrView::BadBinaryOperands),
        },
        BinaryOp::Divide => match (a, b) {
            (ValueView::Number(x), ValueView::Number(y)) => if y == 0 {
                Err(ErrView::DivisionByZero)
            } else if i64::MIN <= crate::ops::trunc_div(x as int, y as int) <= i64::MAX {
                Ok(ValueView::Number(crate::ops::trunc_div(x as int, y as int) as i64))
            } else {
                Err(ErrView::NumericOverflow)
            },
            _ => Err(ErrView::BadBinaryOperands),
        },
        BinaryOp::Equals => Ok(ValueView::Boolean(crate::value::veq(a, b))),
        BinaryOp::NotEquals => Ok(ValueView::Boolean(!crate::value::veq(a, b))),
        _ => match (a, b) {
            (ValueView::Number(x), ValueView::Number(y)) => Ok(
                ValueView::Boolean(
                    match op {
                        BinaryOp::GreaterThan => x > y,
                        BinaryOp::LessThan => x < y,
                        BinaryOp::GreaterThanOrEquals => x >= y,
                        _ => x <= y,
                    },
                ),
            ),
            _ => Err(ErrView::BadBinaryOperands),
        },
    }
}

/// What unary negation yields, at the specification level.
pub open spec fn negate_view(a: ValueView) -> Result<ValueView, ErrView> {
    match a {
        ValueView::Number(x) => if i64::MIN <= -(x as int) <= i64::MAX {
            Ok(ValueView::Number((-(x as int)) as i64))
        } else {
            Err(ErrView::NumericOverflow)
        },
        _ => Err(ErrView::BadUnaryOperand),
    }
}

/// What index access yields, at the specification level.
pub open spec fn index_view(a: ValueView, i: ValueView) -> Result<ValueView, ErrView> {
    match a {
        ValueView::List(xs) => match i {
            ValueView::Number(ix) => if 0 <= ix < xs.len() {
                Ok(xs[ix as int])
            } else {
                Err(ErrView::IndexOutOfBounds(xs.len() as int, ix as int))
            },
            _ => Err(ErrView::ListIndexNotNumber(xs.len() as int, i)),
        },
        ValueView::Dict(ps) => match crate::dict::dict_get(ps, i) {
            Some(v) => Ok(v),
            None => Err(ErrView::KeyNotFound(i)),
        },
        _ => Err(ErrView::NotIndexable(a)),
    }
}

/// The nesting depth of an expression, bounding the evaluation budget the
/// side-effect-free fragment needs.
pub open spec fn edepth(e: Expr) -> nat
    decreases e,
{
    match e.kind {
        ExprKind::Unary { op, expr } => 1 + edepth(*expr),
        ExprKind::Binary { op, left, right } => 1 + if edepth(*left) >= edepth(*right) {
            edepth(*left)
        } else {
            edepth(*right)
        },
        ExprKind::IndexAccess { target, index } => 1 + if edepth(*target) >= edepth(*index) {
            edepth(*target)
        } else {
            edepth(*index)
        },
        _ => 0,
    }
}

/// The side-effect-free fragment's evaluation, compositionally: simple
/// literals, variable reads, unary negation, binary operators (the left
/// operand's failure takes precedence and the right is then not reached)
/// and index access evaluate deterministically against the bindings and
/// change nothing. Calls, methods and aggregate literals are outside the
/// fragment.
pub open spec fn pure_eval(t: SymbolTable, e: Expr) -> Option<Result<ValueView, ErrView>>
    decreases e,
{
    match e.kind {
        ExprKind::Literal(LiteralValue::Number(n)) => Some(Ok(ValueView::Number(n))),
        ExprKind::Literal(LiteralValue::Str(s)) => Some(Ok(ValueView::Str(s@))),
        ExprKind::Literal(LiteralValue::Boolean(b)) => Some(Ok(ValueView::Boolean(b))),
        ExprKind::Variable(name) => match lookup(t, name@) {
            Some(p) => Some(Ok(p.0)),
            None => Some(Err(ErrView::Unbound(name@))),
        },
        ExprKind::Unary { op, expr } => match pure_eval(t, *expr) {
            None => None,
            Some(Err(ev)) => Some(Err(ev)),
            Some(Ok(v)) => Some(negate_view(v)),
        },
        ExprKind::Binary { op, left, right } => match pure_eval(t, *left) {
            None => None,
            Some(Err(ev)) => Some(Err(ev)),
            Some(Ok(lv)) => match pure_eval(t, *right) {
                None => None,
                Some(Err(ev)) => Some(Err(ev)),
                Some(Ok(rv)) => Some(binop_view(op, lv, rv)),
            },
        },
        ExprKind::IndexAccess { target, index } => match pure_eval(t, *target) {
            None => None,
            Some(Err(ev)) => Some(Err(ev)),
            Some(Ok(tv)) => match pure_eval(t, *index) {
                None => None,
                Some(Err(ev)) => Some(Err(ev)),
                Some(Ok(iv)) => Some(index_view(tv, iv)),
            },
        },
        _ => None,
    }
}

/// An executable negation outcome carries exactly the specified one.
proof fn lemma_negate_rel(a: ValueView, r: Result<Value, RuntimeError>)
    requires
        crate::ops::spec_negate(a, r),
    ensures
        result_rel(negate_view(a), r),
{
}

/// An executable binary outcome carries exactly the specified one.
proof fn lemma_binop_rel(op: BinaryOp, a: ValueView, b: ValueView, r: Result<Value, RuntimeError>)
    requires
        spec_binop(op, a, b, r),
    ensures
        result_rel(binop_view(op, a, b), r),
{
}

/// An executable index outcome carries exactly the specified one.
proof fn lemma_index_rel(a: ValueView, i: ValueView, r: Result<Value, RuntimeError>)
    requires
        spec_index(a, i, r),
    ensures
        result_rel(index_view(a, i), r),
{
}

/// Resolution inside a function call's scopes: the parameters (a later
/// binding shadowing an earlier one), then the global scope only — never
/// the caller's locals.
pub open spec fn call_lookup(
    glob: Seq<(String, Symbol)>,
    params: Seq<(Seq<char>, ValueView)>,
    n: Seq<char>,
) -> Option<(ValueView, bool)>
    decreases params.len(),
{
    if params.len() == 0 {
        frame_lookup(glob, n)
    } else if params.last().0 == n {
        Some((params.last().1, false))
    } else {
        call_lookup(glob, params.drop_last(), n)
    }
}

/// The side-effect-free fragment's evaluation inside a function call:
/// as `pure_eval`, but resolving names against the parameters and the
/// global scope only.
pub open spec fn pure_eval_call(
    glob: Seq<(String, Symbol)>,
    params: Seq<(Seq<char>, ValueView)>,
    e: Expr,
) -> Option<Result<ValueView, ErrView>>
    decreases e,
{
    match e.kind {
        ExprKind::Literal(LiteralValue::Number(n)) => Some(Ok(ValueView::Number(n))),
        ExprKind::Literal(LiteralValue::Str(s)) => Some(Ok(ValueView::Str(s@))),
        ExprKind::Literal(LiteralValue::Boolean(b)) => Some(Ok(ValueView::Boolean(b))),
        ExprKind::Variable(name) => match call_lookup(glob, params, name@) {
            Some(p) => Some(Ok(p.0)),
            None => Some(Err(ErrView::Unbound(name@))),
        },
        ExprKind::Unary { op, expr } => match pure_eval_call(glob, params, *expr) {
            None => None,
            Some(Err(ev)) => Some(Err(ev)),
            Some(Ok(v)) => Some(negate_view(v)),
        },
        ExprKind::Binary { op, left, right } => match pure_eval_call(glob, params, *left) {
            None => None,
            Some(Err(ev)) => Some(Err(ev)),
            Some(Ok(lv)) => match pure_eval_call(glob, params, *right) {
                None => None,
                Some(Err(ev)) => Some(Err(ev)),
                Some(Ok(rv)) => Some(binop_view(op, lv, rv)),
            },
        },
        ExprKind::IndexAccess { target, index } => match pure_eval_call(glob, params, *target) {
            None => None,
            Some(Err(ev)) => Some(Err(ev)),
            Some(Ok(tv)) => match pure_eval_call(glob, params, *index) {
                None => None,
                Some(Err(ev)) => Some(Err(ev)),
                Some(Ok(iv)) => Some(index_view(tv, iv)),
            },
        },
        _ => None,
    }
}

/// Whether an executable failure carries exactly the specified one.
pub open spec fn err_view_rel(ev: ErrView, e: RuntimeError) -> bool {
    result_rel(Err(ev), Err::<Value, RuntimeError>(e))
}

/// The bindings a call's parameters make, in order.
pub open spec fn param_binding(ps: Seq<(String, crate::types::Type)>, vs: Seq<ValueView>) -> Seq<
    (Seq<char>, ValueView),
> {
    Seq::new(ps.len(), |i: int| (ps[i].0@, vs[i]))
}

/// A scope whose entries carry exactly the parameter bindings resolves a
/// name as the parameter list does, falling through to the global scope.
proof fn lemma_frame_params(
    f: Seq<(String, Symbol)>,
    params: Seq<(Seq<char>, ValueView)>,
    glob: Seq<(String, Symbol)>,
    n: Seq<char>,
)
    requires
        f.len() == params.len(),
        forall|j: int|
            0 <= j < f.len() ==> (#[trigger] f[j]).0@ == params[j].0 && f[j].1.value@
                == params[j].1 && f[j].1.is_reassignable == false,
    ensures
        match frame_lookup(f, n) {
            Some(p) => call_lookup(glob, params, n) == Some(p),
            None => call_lookup(glob, params, n) == frame_lookup(glob, n),
        },
    decreases f.len(),
{
    if f.len() > 0 {
        if f.last().0@ == n {
        } else {
            lemma_frame_params(f.drop_last(), params.drop_last(), glob, n);
            assert forall|j: int|
                0 <= j < f.drop_last().len() implies (#[trigger] f.drop_last()[j]).0@
                == params.drop_last()[j].0 && f.drop_last()[j].1.value@
                == params.drop_last()[j].1 && f.drop_last()[j].1.is_reassignable == false by {
                assert(f.drop_last()[j] == f[j]);
            }
        }
    }
}

/// Inside a freshly entered call scope whose frame holds exactly the
/// parameter bindings, every lookup goes to the parameters or the global
/// scope.
proof fn lemma_call_table_lookup(
    t: SymbolTable,
    params: Seq<(Seq<char>, ValueView)>,
    n: Seq<char>,
)
    requires
        table_shape_wf(t),
        t.floors@.len() > 0,
        cur_floor(t) == t.scopes@.len() - 1,
        t.scopes@.last()@.len() == params.len(),
        forall|j: int|
            0 <= j < params.len() ==> (#[trigger] t.scopes@.last()@[j]).0@ == params[j].0
                && t.scopes@.last()@[j].1.value@ == params[j].1
                && t.scopes@.last()@[j].1.is_reassignable == false,
    ensures
        lookup(t, n) == call_lookup(t.scopes@[0]@, params, n),
{
    let top = t.scopes@.len() - 1;
    lemma_frame_params(t.scopes@[top]@, params, t.scopes@[0]@, n);
    assert(t.scopes@.last() == t.scopes@[top]);
    if frame_lookup(t.scopes@[top]@, n) is None {
        assert(lookup_visible(t, top - 1, n) == frame_lookup(t.scopes@[0]@, n));
    }
}

/// Where every name resolves as the call environment says, evaluation in
/// the side-effect-free fragment agrees with the call evaluator.
proof fn lemma_pure_eval_call_agrees(
    t: SymbolTable,
    params: Seq<(Seq<char>, ValueView)>,
    e: Expr,
)
    requires
        forall|n: Seq<char>| #[trigger] lookup(t, n) == call_lookup(t.scopes@[0]@, params, n),
    ensures
        pure_eval(t, e) == pure_eval_call(t.scopes@[0]@, params, e),
    decreases e,
{
    match e.kind {
        ExprKind::Unary { op, expr } => {
            lemma_pure_eval_call_agrees(t, params, *expr);
        },
        ExprKind::Binary { op, left, right } => {
            lemma_pure_eval_call_agrees(t, params, *left);
            lemma_pure_eval_call_agrees(t, params, *right);
        },
        ExprKind::IndexAccess { target, index } => {
            lemma_pure_eval_call_agrees(t, params, *target);
            lemma_pure_eval_call_agrees(t, params, *index);
        },
        _ => {},
    }
}

/// Two binding tables that resolve every name alike evaluate the
/// side-effect-free fragment alike.
proof fn lemma_pure_eval_lookup_agrees(t1: SymbolTable, t2: SymbolTable, e: Expr)
    requires
        forall|n: Seq<char>| #[trigger] lookup(t1, n) == lookup(t2, n),
    ensures
        pure_eval(t1, e) == pure_eval(t2, e),
    decreases e,
{
    match e.kind {
        ExprKind::Unary { op, expr } => {
            lemma_pure_eval_lookup_agrees(t1, t2, *expr);
        },
        ExprKind::Binary { op, left, right } => {
            lemma_pure_eval_lookup_agrees(t1, t2, *left);
            lemma_pure_eval_lookup_agrees(t1, t2, *right);
        },
        ExprKind::IndexAccess { target, index } => {
            lemma_pure_eval_lookup_agrees(t1, t2, *target);
            lemma_pure_eval_lookup_agrees(t1, t2, *index);
        },
        _ => {},
    }
}

/// The largest nesting depth among a run of expressions.
pub open spec fn args_depth(es: Seq<Expr>) -> nat
    decreases es.len(),
{
    if es.len() == 0 {
        0
    } else if args_depth(es.drop_last()) >= edepth(es.last()) {
        args_depth(es.drop_last())
    } else {
        edepth(es.last())
    }
}

/// Every expression of the run is in the side-effect-free fragment and
/// evaluates successfully against the bindings.
pub open spec fn all_pure_ok(t: SymbolTable, es: Seq<Expr>) -> bool {
    forall|i: int|
        0 <= i < es.len() ==> (pure_eval(t, #[trigger] es[i]) matches Some(res) && res is Ok)
}

/// The values a run of side-effect-free expressions evaluates to.
pub open spec fn pure_vals(t: SymbolTable, es: Seq<Expr>) -> Seq<ValueView> {
    Seq::new(es.len(), |i: int| pure_eval(t, es[i]).unwrap()->Ok_0)
}

/// No expression of a run is deeper than the run's depth.
proof fn lemma_args_depth(es: Seq<Expr>)
    ensures
        forall|i: int| 0 <= i < es.len() ==> edepth(#[trigger] es[i]) <= args_depth(es),
    decreases es.len(),
{
    if es.len() > 0 {
        lemma_args_depth(es.drop_last());
        assert forall|i: int| 0 <= i < es.len() implies edepth(#[trigger] es[i]) <= args_depth(
            es,
        ) by {
            if i < es.len() - 1 {
                assert(es.drop_last()[i] == es[i]);
            }
        }
    }
}

/// Every expression of the run is a simple literal.
pub open spec fn all_simple_lits(es: Seq<Expr>) -> bool {
    forall|i: int| 0 <= i < es.len() ==> simple_lit_view(#[trigger] es[i]) is Some
}

/// The values a run of simple literals evaluates to.
pub open spec fn lit_views(es: Seq<Expr>) -> Seq<ValueView> {
    Seq::new(es.len(), |i: int| simple_lit_view(es[i]).unwrap())
}

/// Every key and value expression of a dict literal is a simple literal.
pub open spec fn all_simple_pairs(entries: Seq<(Expr, Expr)>) -> bool {
    forall|i: int|
        0 <= i < entries.len() ==> simple_lit_view((#[trigger] entries[i]).0) is Some
            && simple_lit_view(entries[i].1) is Some
}

/// The dict a run of simple-literal entries builds: entries bound in
/// order, a later equal key replacing an earlier one.
pub open spec fn lit_dict_fold(entries: Seq<(Expr, Expr)>) -> Seq<(ValueView, ValueView)>
    decreases entries.len(),
{
    if entries.len() == 0 {
        Seq::empty()
    } else {
        dict_set(
            lit_dict_fold(entries.drop_last()),
            simple_lit_view(entries.last().0).unwrap(),
            simple_lit_view(entries.last().1).unwrap(),
        )
    }
}

/// The value kind that console input of a declared type binds.
pub open spec fn coerced_kind(t: crate::types::Type, v: ValueView) -> bool {
    match t {
        crate::types::Type::Str => v is Str,
        crate::types::Type::Int => v is Number,
        crate::types::Type::Float => v is Number,
        crate::types::Type::Bool => v is Boolean,
        _ => false,
    }
}

/// The space-joined renderings of a list of values: one printed line.
pub open spec fn joined_line(vs: Seq<ValueView>) -> Seq<char>
    decreases vs,
{
    if vs.len() == 0 {
        Seq::empty()
    } else if vs.len() == 1 {
        render_spec(vs[0])
    } else {
        joined_line(vs.drop_last()) + seq![' '] + render_spec(vs.last())
    }
}

proof fn lemma_joined_line_step(vs: Seq<ValueView>, i: int)
    requires
        0 <= i < vs.len(),
    ensures
        joined_line(vs.take(i + 1)) == if i == 0 {
            render_spec(vs[0])
        } else {
            joined_line(vs.take(i)) + seq![' '] + render_spec(vs[i])
        },
{
    let t = vs.take(i + 1);
    assert(t.len() == i + 1);
    if i == 0 {
        assert(t[0] == vs[0]);
    } else {
        assert(t.drop_last() =~= vs.take(i));
        assert(t.last() == vs[i]);
    }
}

/// Values well-formed for a registry stay so as it grows.
proof fn lemma_vals_wf_mono(vs: Seq<Value>, f1: nat, f2: nat)
    requires
        vals_wf(vs, f1),
        f1 <= f2,
    ensures
        vals_wf(vs, f2),
{
    assert forall|i: int| 0 <= i < vs.len() implies value_wf((#[trigger] vs[i])@, f2) by {
        lemma_value_wf_mono(vs[i]@, f1, f2);
    }
}

/// A table whose values are well-formed for a registry keeps that as the
/// registry grows.
proof fn lemma_table_values_wf_mono(t: SymbolTable, f1: nat, f2: nat)
    requires
        table_values_wf(t, f1),
        f1 <= f2,
    ensures
        table_values_wf(t, f2),
{
    assert forall|i: int, j: int|
        0 <= i < t.scopes@.len() && 0 <= j < t.scopes@[i]@.len() implies value_wf(
        (#[trigger] t.scopes@[i]@[j]).1.value@,
        f2,
    ) by {
        lemma_value_wf_mono(t.scopes@[i]@[j].1.value@, f1, f2);
    }
}

/// Decide a branch from an evaluated condition value, for every value:
/// only the Boolean true takes the branch, only the Boolean false passes
/// it over, and anything else is the codified type failure — there is no
/// truthiness.
pub fn branch_decision(cv: &Value) -> (r: Result<bool, RuntimeError>)
    ensures
        match cv@ {
            ValueView::Boolean(b) => r matches Ok(taken) && taken == b,
            _ => r matches Err(RuntimeError::ConditionNotBoolean),
        },
{
    match cv {
        Value::Boolean(b) => Ok(*b),
        _ => Err(RuntimeError::ConditionNotBoolean),
    }
}

/// The result of a call from its body's outcome, for every outcome: a
/// Return ends the call with exactly the carried value — every variant,
/// structurally, with no re-encoding —, normal completion yields Nil, and
/// the body's first failure is the call's failure, unchanged.
pub fn finish_call(body_res: Result<Flow, RuntimeError>) -> (r: Result<Value, RuntimeError>)
    ensures
        body_res matches Ok(f) ==> (match f {
            Flow::Return(v) => r matches Ok(w) && w == v,
            Flow::Normal => r matches Ok(w) && w@ == ValueView::Nil,
        }),
        body_res matches Err(e) ==> (r matches Err(e2) && e2 == e),
{
    match body_res {
        Err(e) => Err(e),
        Ok(Flow::Return(v)) => Ok(v),
        Ok(Flow::Normal) => Ok(Value::Nil),
    }
}

/// What a statement run does to the enclosing sequence, for every
/// outcome: the first failure or Return stops the sequence at once with
/// exactly that outcome; only normal completion continues.
pub enum FlowStep {
    Continue,
    Stop(Result<Flow, RuntimeError>),
}

/// Classify a statement outcome for sequencing (blocks and loop bodies).
pub fn flow_step(res: Result<Flow, RuntimeError>) -> (r: FlowStep)
    ensures
        res matches Err(e) ==> (r matches FlowStep::Stop(s) && s matches Err(e2) && e2 == e),
        res matches Ok(f) ==> (match f {
            Flow::Return(v) => r matches FlowStep::Stop(s) && s matches Ok(f2) && f2
                matches Flow::Return(v2) && v2 == v,
            Flow::Normal => r is Continue,
        }),
{
    match res {
        Err(e) => FlowStep::Stop(Err(e)),
        Ok(Flow::Return(v)) => FlowStep::Stop(Ok(Flow::Return(v))),
        Ok(Flow::Normal) => FlowStep::Continue,
    }
}

/// What a statement outcome means at the top level, for every outcome:
/// the first failure stops the program and is reported unchanged, a
/// Return outside any function is its own failure, and only normal
/// completion lets the next statement run.
pub fn top_level_step(res: Result<Flow, RuntimeError>) -> (r: Option<InterpretResult>)
    ensures
        res matches Err(e) ==> (r matches Some(ir) && ir matches InterpretResult::RuntimeError(
            e2,
        ) && e2 == e),
        res matches Ok(f) ==> (match f {
            Flow::Return(v) => r matches Some(ir) && ir
                matches InterpretResult::RuntimeError(e2) && e2 is ReturnOutsideFunction,
            Flow::Normal => r is None,
        }),
{
    match res {
        Err(e) => Some(InterpretResult::RuntimeError(e)),
        Ok(Flow::Return(_)) => Some(InterpretResult::RuntimeError(
            RuntimeError::ReturnOutsideFunction,
        )),
        Ok(Flow::Normal) => None,
    }
}

/// Classify an evaluated callee value, for every value: declared
/// functions and host natives are callable, nothing else is.
pub enum CalleeKind {
    Declared(FunRef),
    Native(u64),
}

/// Admit only callable values as call targets.
pub fn require_callable(v: Value) -> (r: Result<CalleeKind, RuntimeError>)
    ensures
        match v@ {
            ValueView::Function { index, name } => r matches Ok(k) && k
                matches CalleeKind::Declared(fr) && fr.index as int == index && fr.name@ == name,
            ValueView::Native(id) => r matches Ok(k) && k matches CalleeKind::Native(id2) && id2
                == id,
            _ => r matches Err(RuntimeError::NotCallable),
        },
{
    match v {
        Value::Function(fr) => Ok(CalleeKind::Declared(fr)),
        Value::Native(id) => Ok(CalleeKind::Native(id)),
        _ => Err(RuntimeError::NotCallable),
    }
}

/// Relies on Rc::clone: returns another handle to the same declaration.
#[verifier::external_body]
fn rc_dup(r: &Rc<FuncDecl>) -> (r2: Rc<FuncDecl>)
    ensures
        r2 == *r,
{
    Rc::clone(r)
}

/// Print the space-joined renderings of the values as one line.
pub fn print_values<H: Host>(host: &mut H, vals: &Vec<Value>)
    ensures
        final(host).printed() == old(host).printed().push(joined_line(seq_view(vals@))),
        printed_grows(old(host).printed(), final(host).printed()),
{
    proof {
        broadcast use lemma_seq_view;

    }
    let n = vals.len();
    let mut line: Vec<char> = Vec::new();
    let mut i: usize = 0;
    proof {
        assert(line@ =~= joined_line(seq_view(vals@).take(0)));
    }
    while i < n
        invariant
            n == vals@.len(),
            i <= n,
            seq_view(vals@).len() == n,
            line@ =~= joined_line(seq_view(vals@).take(i as int)),
        decreases n - i,
    {
        if i > 0 {
            line.push(' ');
        }
        let mut piece = render_chars(&vals[i]);
        line.append(&mut piece);
        proof {
            broadcast use lemma_seq_view;

            lemma_joined_line_step(seq_view(vals@), i as int);
            assert(line@ =~= joined_line(seq_view(vals@).take(i + 1)));
        }
        i += 1;
    }
    proof {
        assert(seq_view(vals@).take(n as int) =~= seq_view(vals@));
    }
    host.print_line(chars_to_string(&line));
}

impl Interpreter {
    /// A fresh interpreter: empty global scope, no declared functions.
    pub fn new() -> (r: Interpreter)
        ensures
            interp_wf(r),
            r.globals.scopes@.len() == 1,
            r.globals.floors@.len() == 0,
            r.functions@.len() == 0,
            forall|n: Seq<char>| lookup(r.globals, n) is None,
    {
        Interpreter { globals: SymbolTable::new(), functions: Vec::new() }
    }

    /// Evaluate one expression.
    pub fn eval_expr<H: Host>(&mut self, host: &mut H, e: &Expr, fuel: u64) -> (r: Result<
        Value,
        RuntimeError,
    >)
        requires
            interp_wf(*old(self)),
        ensures
            interp_wf(*final(self)),
            evolves(*old(self), *final(self)),
            printed_grows(old(host).printed(), final(host).printed()),
            r matches Ok(v) ==> value_wf(v@, final(self).functions@.len() as nat),
            fuel == 0 ==> (r matches Err(RuntimeError::BudgetExhausted) && *final(self) == *old(
                self,
            ) && *final(host) == *old(host)),
            fuel > 0 && simple_lit_view(*e) is Some ==> *final(self) == *old(self) && *final(host)
                == *old(host) && (r matches Ok(v) && Some(v@) == simple_lit_view(*e)),
            fuel > 0 ==> (e.kind matches ExprKind::Variable(name) ==> *final(self) == *old(self)
                && *final(host) == *old(host) && (match lookup(old(self).globals, name@) {
                Some(p) => r matches Ok(v) && v@ == p.0,
                None => r matches Err(RuntimeError::UnboundVariable { name: n2 }) && n2@ == name@,
            })),
            fuel >= 2 ==> (e.kind matches ExprKind::Unary { op, expr } ==> simple_lit_view(*expr)
                matches Some(vv) ==> *final(self) == *old(self) && *final(host) == *old(host)
                && spec_negate(vv, r)),
            fuel >= 2 ==> (e.kind matches ExprKind::Binary { op, left, right } ==> (
            simple_lit_view(*left) matches Some(lv) ==> (simple_lit_view(*right) matches Some(rv)
                ==> *final(self) == *old(self) && *final(host) == *old(host) && spec_binop(
                op,
                lv,
                rv,
                r,
            )))),
            fuel >= 2 ==> (e.kind matches ExprKind::IndexAccess { target, index } ==> (
            simple_lit_view(*target) matches Some(tv) ==> (simple_lit_view(*index) matches Some(
                iv,
            ) ==> *final(self) == *old(self) && *final(host) == *old(host) && spec_index(
                tv,
                iv,
                r,
            )))),
            fuel >= 2 ==> (e.kind matches ExprKind::FunctionCall { callee, args } ==> (
            simple_lit_view(*callee) is Some ==> (r matches Err(RuntimeError::NotCallable))
                && *final(self) == *old(self) && *final(host) == *old(host))),
            fuel >= 1 ==> (e.kind matches ExprKind::FunctionCall { callee, args } ==> (
            callee.kind matches ExprKind::PropertyAccess { target, property } ==> (!(target.kind
                is Variable) ==> (r matches Err(RuntimeError::ComplexMethodTarget))
                && *final(self) == *old(self) && *final(host) == *old(host)))),
            fuel >= 1 + edepth(*e) ==> (match pure_eval(old(self).globals, *e) {
                Some(res) => *final(self) == *old(self) && *final(host) == *old(host)
                    && result_rel(res, r),
                None => true,
            }),
        decreases fuel,
    {
        if fuel == 0 {
            return Err(RuntimeError::BudgetExhausted);
        }
        match &e.kind {
            ExprKind::Literal(lit) => self.eval_literal(host, lit, (fuel - 1) as u64),
            ExprKind::Variable(name) => {
                proof {
                    lemma_lookup_wf(
                        self.globals,
                        self.globals.scopes@.len() - 1,
                        name@,
                        self.functions@.len() as nat,
                    );
                }
                match self.globals.get(name) {
                    Some(sym) => Ok(sym.value),
                    None => Err(RuntimeError::UnboundVariable { name: name.clone() }),
                }
            },
            ExprKind::Unary { op: _, expr } => {
                let v = self.eval_expr(host, expr, (fuel - 1) as u64)?;
                let ghost vv = v@;
                let res = negate_value(v);
                proof {
                    if crate::ops::spec_negate(vv, res) {
                        lemma_negate_rel(vv, res);
                    }
                }
                res
            },
            ExprKind::Binary { op, left, right } => {
                let lv = self.eval_expr(host, left, (fuel - 1) as u64)?;
                let ghost f1 = self.functions@.len() as nat;
                let rv = self.eval_expr(host, right, (fuel - 1) as u64)?;
                proof {
                    lemma_value_wf_mono(lv@, f1, self.functions@.len() as nat);
                }
                let ghost lview = lv@;
                let ghost rview = rv@;
                let res = match op {
                    crate::ast::BinaryOp::Add => add_values(lv, rv),
                    crate::ast::BinaryOp::Subtract => subtract_values(lv, rv),
                    crate::ast::BinaryOp::Multiply => multiply_values(lv, rv),
                    crate::ast::BinaryOp::Divide => divide_values(lv, rv),
                    crate::ast::BinaryOp::Equals => Ok(equality_values(false, &lv, &rv)),
                    crate::ast::BinaryOp::NotEquals => Ok(equality_values(true, &lv, &rv)),
                    _ => compare_values(op, lv, rv),
                };
                proof {
                    if spec_binop(*op, lview, rview, res) {
                        lemma_binop_rel(*op, lview, rview, res);
                    }
                }
                res
            },
            ExprKind::FunctionCall { callee, args } => {
                match &callee.kind {
                    ExprKind::PropertyAccess { target, property } => {
                        match &target.kind {
                            ExprKind::Variable(name) => {
                                let argv = self.eval_args(host, args, (fuel - 1) as u64)?;
                                self.apply_collection_method(name, property, argv)
                            },
                            _ => Err(RuntimeError::ComplexMethodTarget),
                        }
                    },
                    _ => {
                        let fv = self.eval_expr(host, callee, (fuel - 1) as u64)?;
                        match require_callable(fv) {
                            Err(e) => Err(e),
                            Ok(CalleeKind::Declared(fr)) => self.call_function(
                                host,
                                fr,
                                args,
                                (fuel - 1) as u64,
                            ),
                            Ok(CalleeKind::Native(id)) => {
                                let argv = self.eval_args(host, args, (fuel - 1) as u64)?;
                                self.call_native_checked(host, id, argv)
                            },
                        }
                    },
                }
            },
            ExprKind::IndexAccess { target, index } => {
                let tv = self.eval_expr(host, target, (fuel - 1) as u64)?;
                let ghost f1 = self.functions@.len() as nat;
                let iv = self.eval_expr(host, index, (fuel - 1) as u64)?;
                proof {
                    lemma_value_wf_mono(tv@, f1, self.functions@.len() as nat);
                }
                let ghost tview = tv@;
                let ghost iview = iv@;
                let r = index_values(tv, iv);
                proof {
                    crate::ops::lemma_index_wf(tview, iview, r, self.functions@.len() as nat);
                    lemma_index_rel(tview, iview, r);
                }
                r
            },
            ExprKind::PropertyAccess { .. } => Err(RuntimeError::PropertyOutsideCall),
        }
    }

    /// Evaluate a literal: list and dict literals evaluate their element
    /// expressions eagerly, left to right; dict entries bind in order, a
    /// later equal key replacing an earlier one.
    fn eval_literal<H: Host>(&mut self, host: &mut H, lit: &LiteralValue, fuel: u64) -> (r: Result<
        Value,
        RuntimeError,
    >)
        requires
            interp_wf(*old(self)),
        ensures
            interp_wf(*final(self)),
            evolves(*old(self), *final(self)),
            printed_grows(old(host).printed(), final(host).printed()),
            r matches Ok(v) ==> value_wf(v@, final(self).functions@.len() as nat),
            (*lit) matches LiteralValue::Number(n) ==> *final(self) == *old(self) && *final(host)
                == *old(host) && (r matches Ok(v) && v@ == ValueView::Number(n)),
            (*lit) matches LiteralValue::Str(s) ==> *final(self) == *old(self) && *final(host)
                == *old(host) && (r matches Ok(v) && v@ == ValueView::Str(s@)),
            (*lit) matches LiteralValue::Boolean(b) ==> *final(self) == *old(self) && *final(host)
                == *old(host) && (r matches Ok(v) && v@ == ValueView::Boolean(b)),
            fuel >= 3 ==> ((*lit) matches LiteralValue::List(es) ==> all_simple_lits(es@) ==> (r
                matches Ok(v) && v@ == ValueView::List(lit_views(es@))) && *final(self)
                == *old(self) && *final(host) == *old(host)),
            fuel >= 2 ==> ((*lit) matches LiteralValue::Dict(entries) ==> all_simple_pairs(
                entries@,
            ) ==> (r matches Ok(v) && v@ == ValueView::Dict(lit_dict_fold(entries@)))
                && *final(self) == *old(self) && *final(host) == *old(host)),
            fuel >= 3 ==> ((*lit) matches LiteralValue::List(es) ==> (es@.len() >= 1 ==> (
            es@[0].kind matches ExprKind::Variable(vn) ==> (lookup(old(self).globals, vn@)
                is None ==> (r matches Err(RuntimeError::UnboundVariable { name }) && name@
                == vn@) && *final(self) == *old(self) && *final(host) == *old(host))))),
            fuel >= 2 ==> ((*lit) matches LiteralValue::Dict(entries) ==> (entries@.len() >= 1
                ==> (entries@[0].0.kind matches ExprKind::Variable(vn) ==> (lookup(
                old(self).globals,
                vn@,
            ) is None ==> (r matches Err(RuntimeError::UnboundVariable { name }) && name@ == vn@)
                && *final(self) == *old(self) && *final(host) == *old(host))))),
        decreases fuel,
    {
        match lit {
            LiteralValue::Number(n) => {
                let v = Value::Number(*n);
                proof {
                    assert(v@ == ValueView::Number(*n));
                }
                Ok(v)
            },
            LiteralValue::Str(s) => {
                let v = Value::Str(s.clone());
                proof {
                    assert(v@ == ValueView::Str(s@));
                }
                Ok(v)
            },
            LiteralValue::Boolean(b) => {
                let v = Value::Boolean(*b);
                proof {
                    assert(v@ == ValueView::Boolean(*b));
                }
                Ok(v)
            },
            LiteralValue::List(es) => {
                if fuel == 0 {
                    return Err(RuntimeError::BudgetExhausted);
                }
                let vs = self.eval_args(host, es, (fuel - 1) as u64)?;
                proof {
                    broadcast use lemma_seq_view;

                    if fuel >= 3 && all_simple_lits(es@) {
                        assert(Value::List(vs)@ == ValueView::List(seq_view(vs@)));
                    }
                    let ghost flen = self.functions@.len() as nat;
                    assert forall|k: int| 0 <= k < seq_view(vs@).len() implies value_wf(
                        #[trigger] seq_view(vs@)[k],
                        flen,
                    ) by {
                        assert(seq_view(vs@)[k] == vs@[k]@);
                    }
                    assert(value_wf(Value::List(vs)@, flen)) by {
                        assert(ValueView::List(seq_view(vs@))->List_0 == seq_view(vs@));
                    }
                }
                Ok(Value::List(vs))
            },
            LiteralValue::Dict(entries) => {
                if fuel == 0 {
                    return Err(RuntimeError::BudgetExhausted);
                }
                let n = entries.len();
                let mut ps: Vec<(Value, Value)> = Vec::new();
                let mut i: usize = 0;
                let ghost old_it = *old(self);
                let ghost old_printed = old(host).printed();
                proof {
                    assert(value_wf(
                        ValueView::Dict(pair_seq_view(ps@)),
                        self.functions@.len() as nat,
                    )) by {
                        assert(pair_seq_view(ps@) =~= Seq::<(ValueView, ValueView)>::empty());
                    }
                }
                while i < n
                    invariant
                        (*lit) matches LiteralValue::Dict(e2) && e2 == *entries,
                        fuel >= 1,
                        old_it == *old(self),
                        old_printed == old(host).printed(),
                        n == entries@.len(),
                        i <= n,
                        interp_wf(*self),
                        evolves(old_it, *self),
                        printed_grows(old_printed, host.printed()),
                        value_wf(
                            ValueView::Dict(pair_seq_view(ps@)),
                            self.functions@.len() as nat,
                        ),
                        fuel >= 2 && all_simple_pairs(entries@) ==> *self == *old(self) && *host
                            == *old(host) && pair_seq_view(ps@) == lit_dict_fold(
                            entries@.take(i as int),
                        ),
                        fuel >= 2 && n >= 1 ==> (entries@[0].0.kind matches ExprKind::Variable(
                            vn,
                        ) ==> (lookup(old(self).globals, vn@) is None ==> i == 0 && *self == *old(
                            self,
                        ) && *host == *old(host))),
                    decreases n - i,
                {
                    let ghost flen_head = self.functions@.len() as nat;
                    let kv = self.eval_expr(host, &entries[i].0, (fuel - 1) as u64)?;
                    let ghost f1 = self.functions@.len() as nat;
                    let vv = self.eval_expr(host, &entries[i].1, (fuel - 1) as u64)?;
                    let ghost flen_now = self.functions@.len() as nat;
                    proof {
                        lemma_value_wf_mono(kv@, f1, flen_now);
                        lemma_value_wf_mono(ValueView::Dict(pair_seq_view(ps@)), flen_head, flen_now);
                        assert(ValueView::Dict(pair_seq_view(ps@))->Dict_0 == pair_seq_view(ps@));
                        lemma_dict_set_props(pair_seq_view(ps@), kv@, vv@, flen_now);
                    }
                    let ghost before = pair_seq_view(ps@);
                    let ghost kview = kv@;
                    let ghost vview = vv@;
                    dict_insert(&mut ps, kv, vv);
                    proof {
                        assert(pair_seq_view(ps@) =~= dict_set(before, kview, vview));
                        assert(value_wf(ValueView::Dict(pair_seq_view(ps@)), flen_now)) by {
                            assert(ValueView::Dict(dict_set(before, kview, vview))->Dict_0
                                == dict_set(before, kview, vview));
                            assert(ValueView::Dict(pair_seq_view(ps@))->Dict_0 == pair_seq_view(
                                ps@,
                            ));
                        }
                        if fuel >= 2 && all_simple_pairs(entries@) {
                            assert(entries@.take(i + 1).drop_last() =~= entries@.take(i as int));
                            assert(entries@.take(i + 1).last() == entries@[i as int]);
                            assert(kview == simple_lit_view(entries@[i as int].0).unwrap());
                            assert(vview == simple_lit_view(entries@[i as int].1).unwrap());
                            assert(pair_seq_view(ps@) == lit_dict_fold(entries@.take(i + 1)));
                        }
                    }
                    i += 1;
                }
                proof {
                    if fuel >= 2 && all_simple_pairs(entries@) {
                        assert(entries@.take(n as int) =~= entries@);
                        assert(Value::Dict(ps)@ == ValueView::Dict(pair_seq_view(ps@)));
                    }
                }
                Ok(Value::Dict(ps))
            },
        }
    }

    /// Evaluate a list of argument expressions, left to right.
    fn eval_args<H: Host>(&mut self, host: &mut H, es: &Vec<Expr>, fuel: u64) -> (r: Result<
        Vec<Value>,
        RuntimeError,
    >)
        requires
            interp_wf(*old(self)),
        ensures
            interp_wf(*final(self)),
            evolves(*old(self), *final(self)),
            printed_grows(old(host).printed(), final(host).printed()),
            r matches Ok(vs) ==> vs@.len() == es@.len() && vals_wf(
                vs@,
                final(self).functions@.len() as nat,
            ),
            fuel >= 2 && all_simple_lits(es@) ==> *final(self) == *old(self) && *final(host)
                == *old(host) && (r matches Ok(vs) && seq_view(vs@) == lit_views(es@)),
            fuel >= 2 ==> (es@.len() >= 1 ==> (es@[0].kind matches ExprKind::Variable(vn) ==> (
            lookup(old(self).globals, vn@) is None ==> (r matches Err(
                RuntimeError::UnboundVariable { name },
            ) && name@ == vn@) && *final(self) == *old(self) && *final(host) == *old(host)))),
            fuel >= 2 + args_depth(es@) && all_pure_ok(old(self).globals, es@) ==> *final(self)
                == *old(self) && *final(host) == *old(host) && (r matches Ok(vs) && seq_view(vs@)
                == pure_vals(old(self).globals, es@)),
        decreases fuel,
    {
        if fuel == 0 {
            return Err(RuntimeError::BudgetExhausted);
        }
        let n = es.len();
        let mut out: Vec<Value> = Vec::new();
        let mut i: usize = 0;
        let ghost old_it = *old(self);
        let ghost old_printed = old(host).printed();
        while i < n
            invariant
                fuel >= 1,
                old_it == *old(self),
                old_printed == old(host).printed(),
                n == es@.len(),
                i <= n,
                out@.len() == i,
                interp_wf(*self),
                evolves(old_it, *self),
                printed_grows(old_printed, host.printed()),
                vals_wf(out@, self.functions@.len() as nat),
                fuel >= 2 && all_simple_lits(es@) ==> *self == *old(self) && *host == *old(host)
                    && seq_view(out@) =~= lit_views(es@).take(i as int),
                fuel >= 2 && n >= 1 ==> (es@[0].kind matches ExprKind::Variable(vn) ==> (lookup(
                    old(self).globals,
                    vn@,
                ) is None ==> i == 0 && *self == *old(self) && *host == *old(host))),
                fuel >= 2 + args_depth(es@) && all_pure_ok(old(self).globals, es@) ==> *self
                    == *old(self) && *host == *old(host) && seq_view(out@) =~= pure_vals(
                    old(self).globals,
                    es@,
                ).take(i as int),
            decreases n - i,
        {
            let ghost flen_before = self.functions@.len() as nat;
            proof {
                if fuel >= 2 + args_depth(es@) && all_pure_ok(old(self).globals, es@) {
                    lemma_args_depth(es@);
                    assert(pure_eval(old(self).globals, es@[i as int]) matches Some(res2) && res2
                        is Ok) by {
                        assert(all_pure_ok(old(self).globals, es@));
                    }
                }
            }
            let v = self.eval_expr(host, &es[i], (fuel - 1) as u64)?;
            proof {
                lemma_vals_wf_mono(out@, flen_before, self.functions@.len() as nat);
            }
            let ghost out_before = out@;
            out.push(v);
            proof {
                assert forall|k: int|
                    0 <= k < out@.len() implies value_wf(
                    (#[trigger] out@[k])@,
                    self.functions@.len() as nat,
                ) by {}
                if fuel >= 2 && all_simple_lits(es@) {
                    broadcast use lemma_seq_view;

                    assert(simple_lit_view(es@[i as int]) is Some);
                    assert(v@ == simple_lit_view(es@[i as int]).unwrap());
                    assert forall|k: int|
                        0 <= k < out@.len() implies seq_view(out@)[k] == lit_views(es@).take(
                        i + 1,
                    )[k] by {
                        assert(seq_view(out@)[k] == out@[k]@);
                        if k < i as int {
                            assert(out@[k] == out_before[k]);
                            assert(seq_view(out_before)[k] == out_before[k]@);
                        }
                    }
                    assert(seq_view(out@) =~= lit_views(es@).take(i + 1));
                }
                if fuel >= 2 + args_depth(es@) && all_pure_ok(old(self).globals, es@) {
                    broadcast use lemma_seq_view;

                    lemma_args_depth(es@);
                    assert(pure_eval(old(self).globals, es@[i as int]) matches Some(res) && res
                        is Ok) by {
                        assert(all_pure_ok(old(self).globals, es@));
                    }
                    assert(v@ == pure_vals(old(self).globals, es@)[i as int]);
                    assert forall|k: int|
                        0 <= k < out@.len() implies seq_view(out@)[k] == pure_vals(
                        old(self).globals,
                        es@,
                    ).take(i + 1)[k] by {
                        assert(seq_view(out@)[k] == out@[k]@);
                        if k < i as int {
                            assert(out@[k] == out_before[k]);
                            assert(seq_view(out_before)[k] == out_before[k]@);
                        }
                    }
                    assert(seq_view(out@) =~= pure_vals(old(self).globals, es@).take(i + 1));
                }
            }
            i += 1;
        }
        proof {
            if fuel >= 2 && all_simple_lits(es@) {
                assert(lit_views(es@).take(n as int) =~= lit_views(es@));
            }
            if fuel >= 2 + args_depth(es@) && all_pure_ok(old(self).globals, es@) {
                assert(pure_vals(old(self).globals, es@).take(n as int) =~= pure_vals(
                    old(self).globals,
                    es@,
                ));
            }
        }
        Ok(out)
    }

    /// Call a declared function: check arity against the declaration,
    /// evaluate the arguments in the caller's scopes, then run the body in
    /// a fresh scope chained only to the global scope.
    fn call_function<H: Host>(
        &mut self,
        host: &mut H,
        fr: FunRef,
        args: &Vec<Expr>,
        fuel: u64,
    ) -> (r: Result<Value, RuntimeError>)
        requires
            interp_wf(*old(self)),
            fr.index < old(self).functions@.len(),
        ensures
            interp_wf(*final(self)),
            evolves(*old(self), *final(self)),
            printed_grows(old(host).printed(), final(host).printed()),
            r matches Ok(v) ==> value_wf(v@, final(self).functions@.len() as nat),
            args@.len() != old(self).functions@[fr.index as int].params@.len() ==> (*final(self)
                == *old(self) && *final(host) == *old(host)) && (r matches Err(
                RuntimeError::ArityMismatch { name, expected, found },
            ) && name@ == fr.name@ && expected == old(
                self,
            ).functions@[fr.index as int].params@.len() && found == args@.len()),
            fuel >= 3 ==> (args@.len() == old(self).functions@[fr.index as int].params@.len()
                ==> all_simple_lits(args@) ==> old(self).functions@[fr.index as int].body@.len()
                == 0 ==> ({
                &&& r matches Ok(v) && v@ == ValueView::Nil
                &&& final(self).globals.scopes@ == old(self).globals.scopes@
                &&& final(self).globals.floors@ == old(self).globals.floors@
                &&& final(self).functions@ == old(self).functions@
                &&& *final(host) == *old(host)
            })),
            fuel >= 4 ==> (args@.len() == old(self).functions@[fr.index as int].params@.len()
                ==> all_simple_lits(args@) ==> (old(self).functions@[fr.index as int].body@.len()
                >= 1 ==> (old(self).functions@[fr.index as int].body@[0].kind
                matches StmtKind::Return(e) ==> (simple_lit_view(e) matches Some(vv) ==> ({
                &&& r matches Ok(v) && v@ == vv
                &&& final(self).globals.scopes@ == old(self).globals.scopes@
                &&& final(self).globals.floors@ == old(self).globals.floors@
                &&& final(self).functions@ == old(self).functions@
                &&& *final(host) == *old(host)
            }))))),
            args@.len() == old(self).functions@[fr.index as int].params@.len() ==> (all_pure_ok(
                old(self).globals,
                args@,
            ) ==> (old(self).functions@[fr.index as int].body@.len() >= 1 ==> (old(
                self,
            ).functions@[fr.index as int].body@[0].kind matches StmtKind::Return(e) ==> (fuel >= 3
                + args_depth(args@) ==> (fuel >= 4 + edepth(e) ==> (match pure_eval_call(
                old(self).globals.scopes@[0]@,
                param_binding(
                    old(self).functions@[fr.index as int].params@,
                    pure_vals(old(self).globals, args@),
                ),
                e,
            ) {
                Some(res) => ({
                    &&& (match res {
                        Ok(v) => r matches Ok(rv) && rv@ == v,
                        Err(ev) => r matches Err(e2) && result_rel(Err(ev), Err(e2)),
                    })
                    &&& final(self).globals.scopes@ == old(self).globals.scopes@
                    &&& final(self).globals.floors@ == old(self).globals.floors@
                    &&& final(self).functions@ == old(self).functions@
                    &&& *final(host) == *old(host)
                }),
                None => true,
            })))))),
        decreases fuel,
    {
        let rc = rc_dup(&self.functions[fr.index]);
        if args.len() != rc.params.len() {
            return Err(
                RuntimeError::ArityMismatch {
                    name: fr.name,
                    expected: rc.params.len(),
                    found: args.len(),
                },
            );
        }
        if fuel == 0 {
            return Err(RuntimeError::BudgetExhausted);
        }
        let ghost old_it = *old(self);
        let ghost old_printed = old(host).printed();
        let ghost simple_case = fuel >= 3 && all_simple_lits(args@);
        let ghost pure_case = fuel >= 3 + args_depth(args@) && all_pure_ok(old_it.globals, args@);
        let ghost bindings = param_binding(rc.params@, pure_vals(old_it.globals, args@));
        let mut argv = self.eval_args(host, args, (fuel - 1) as u64)?;
        let ghost after_args = *self;
        proof {
            if simple_case {
                assert(after_args == old_it && *host == *old(host));
            }
            if pure_case {
                assert(after_args == old_it && *host == *old(host));
                assert(seq_view(argv@) == pure_vals(old_it.globals, args@));
            }
        }
        self.globals.enter_call();
        let np = rc.params.len();
        let mut i: usize = 0;
        while i < np
            invariant
                old_it == *old(self),
                old_printed == old(host).printed(),
                after_args.globals.floors@ == old_it.globals.floors@,
                after_args.globals.scopes@.len() == old_it.globals.scopes@.len(),
                i <= np,
                argv@.len() == np - i,
                np == rc.params@.len(),
                args@.len() == np,
                table_shape_wf(self.globals),
                table_values_wf(self.globals, self.functions@.len() as nat),
                self.functions@ == after_args.functions@,
                evolves(old_it, after_args),
                printed_grows(old_printed, host.printed()),
                vals_wf(argv@, self.functions@.len() as nat),
                self.globals.scopes@.len() == after_args.globals.scopes@.len() + 1,
                self.globals.floors@ == after_args.globals.floors@.push(
                    (after_args.globals.scopes@.len()) as usize,
                ),
                forall|k: int|
                    0 <= k < after_args.globals.scopes@.len() ==> #[trigger] self.globals.scopes@[k]
                        == after_args.globals.scopes@[k],
                simple_case ==> after_args == old_it && *host == *old(host),
                bindings == param_binding(rc.params@, pure_vals(old_it.globals, args@)),
                pure_case ==> {
                    &&& after_args == old_it
                    &&& *host == *old(host)
                    &&& bindings.len() == np
                    &&& seq_view(argv@) =~= pure_vals(old_it.globals, args@).skip(i as int)
                    &&& self.globals.scopes@.last()@.len() == i
                    &&& forall|j: int|
                        0 <= j < i ==> (#[trigger] self.globals.scopes@.last()@[j]).0@
                            == bindings[j].0 && self.globals.scopes@.last()@[j].1.value@
                            == bindings[j].1 && self.globals.scopes@.last()@[j].1.is_reassignable
                            == false
                },
            decreases np - i,
        {
            let ghost argv_before = argv@;
            let v = argv.remove(0);
            let name = rc.params[i].0.clone();
            proof {
                assert(value_wf(v@, self.functions@.len() as nat));
                if pure_case {
                    broadcast use lemma_seq_view;

                    let ghost pv = pure_vals(old_it.globals, args@);
                    assert(seq_view(argv_before) == pv.skip(i as int));
                    assert(argv@ =~= argv_before.skip(1));
                    assert(v == argv_before[0]);
                    assert(argv_before[0]@ == seq_view(argv_before)[0]);
                    assert(pv.skip(i as int)[0] == pv[i as int]);
                    assert(v@ == pv[i as int]);
                    assert forall|k: int| 0 <= k < argv@.len() implies seq_view(argv@)[k]
                        == pv.skip(i + 1)[k] by {
                        assert(argv@[k] == argv_before[k + 1]);
                        assert(seq_view(argv_before)[k + 1] == argv_before[k + 1]@);
                        assert(seq_view(argv@)[k] == argv@[k]@);
                        assert(pv.skip(i + 1)[k] == pv[i + 1 + k]);
                        assert(pv.skip(i as int)[k + 1] == pv[i + 1 + k]);
                    }
                    assert(seq_view(argv@) =~= pv.skip(i + 1));
                }
            }
            self.globals.define(name, v, false);
            i += 1;
        }
        let ghost before_body = *self;
        proof {
            if pure_case && rc.body@.len() >= 1 {
                assert forall|n: Seq<char>| #[trigger] lookup(before_body.globals, n)
                    == call_lookup(before_body.globals.scopes@[0]@, bindings, n) by {
                    lemma_call_table_lookup(before_body.globals, bindings, n);
                }
                match rc.body@[0].kind {
                    StmtKind::Return(e) => {
                        lemma_pure_eval_call_agrees(before_body.globals, bindings, e);
                        assert(before_body.globals.scopes@[0]@ == old_it.globals.scopes@[0]@);
                    },
                    _ => {},
                }
            }
        }
        let body_res = self.exec_block(host, &rc.body, (fuel - 1) as u64);
        self.globals.exit_call();
        proof {
            assert(self.globals.floors@ =~= after_args.globals.floors@);
            let ghost ret_lit_body = rc.body@.len() >= 1 && fuel >= 4 && (rc.body@[0].kind
                matches StmtKind::Return(e) && simple_lit_view(e) is Some);
            let ghost ret_pure_body = rc.body@.len() >= 1 && (match rc.body@[0].kind {
                StmtKind::Return(e) => fuel >= 4 + edepth(e) && pure_eval(
                    before_body.globals,
                    e,
                ) is Some,
                _ => false,
            });
            if (simple_case && (rc.body@.len() == 0 || ret_lit_body)) || (pure_case
                && ret_pure_body) {
                assert(before_body.globals.scopes@.len() == old_it.globals.scopes@.len() + 1);
                if body_res is Ok {
                    assert forall|k: int|
                        0 <= k < self.globals.scopes@.len() implies #[trigger] self.globals.scopes@[k]
                            == old_it.globals.scopes@[k] by {}
                    assert(self.globals.scopes@ =~= old_it.globals.scopes@);
                    assert(self.globals.floors@ =~= old_it.globals.floors@);
                }
            }
        }
        finish_call(body_res)
    }

    /// Run a host-registered native callable and admit only well-formed
    /// results.
    fn call_native_checked<H: Host>(&mut self, host: &mut H, id: u64, argv: Vec<Value>) -> (r:
        Result<Value, RuntimeError>)
        requires
            interp_wf(*old(self)),
        ensures
            interp_wf(*final(self)),
            evolves(*old(self), *final(self)),
            printed_grows(old(host).printed(), final(host).printed()),
            r matches Ok(v) ==> value_wf(v@, final(self).functions@.len() as nat),
            *final(self) == *old(self),
    {
        let res = host.call_native(id, argv);
        match res {
            Err(msg) => Err(RuntimeError::NativeFailure { message: msg }),
            Ok(v) => {
                if value_wf_check(&v, self.functions.len()) {
                    Ok(v)
                } else {
                    Err(RuntimeError::HostValueMalformed)
                }
            },
        }
    }

    /// Apply a built-in collection method (`push` on lists, `set` on
    /// dicts) to the named variable's value, in place.
    fn apply_collection_method(&mut self, name: &String, property: &String, argv: Vec<Value>)
        -> (r: Result<Value, RuntimeError>)
        requires
            interp_wf(*old(self)),
            vals_wf(argv@, old(self).functions@.len() as nat),
        ensures
            interp_wf(*final(self)),
            evolves(*old(self), *final(self)),
            final(self).functions@ == old(self).functions@,
            r matches Ok(v) ==> v@ == ValueView::Nil,
            r is Err ==> *final(self) == *old(self),
            lookup(old(self).globals, name@) is None ==> (r matches Err(
                RuntimeError::UnboundVariable { name: n2 },
            ) && n2@ == name@ && *final(self) == *old(self)),
            forall|xs: Seq<ValueView>, fl: bool|
                lookup(old(self).globals, name@) == Some((ValueView::List(xs), fl)) && property@
                    == "push"@ && argv@.len() == 1 ==> (r matches Ok(v)) && (forall|n: Seq<char>|
                    #[trigger] lookup(final(self).globals, n) == if n == name@ {
                        Some((ValueView::List(xs.push(argv@[0]@)), fl))
                    } else {
                        lookup(old(self).globals, n)
                    }),
            forall|ps: Seq<(ValueView, ValueView)>, fl: bool|
                lookup(old(self).globals, name@) == Some((ValueView::Dict(ps), fl)) && property@
                    == "set"@ && argv@.len() == 2 ==> (r matches Ok(v)) && (forall|n: Seq<char>|
                    #[trigger] lookup(final(self).globals, n) == if n == name@ {
                        Some((ValueView::Dict(dict_set(ps, argv@[0]@, argv@[1]@)), fl))
                    } else {
                        lookup(old(self).globals, n)
                    }),
    {
        let ghost flen = self.functions@.len() as nat;
        proof {
            lemma_lookup_wf(self.globals, self.globals.scopes@.len() - 1, name@, flen);
        }
        let looked = self.globals.get(name);
        match looked {
            None => Err(RuntimeError::UnboundVariable { name: name.clone() }),
            Some(sym) => {
                match sym.value {
                    Value::List(mut xs) => {
                        if !str_eq(property.as_str(), "push") {
                            return Err(RuntimeError::UnknownMethod { property: property.clone() });
                        }
                        if argv.len() != 1 {
                            return Err(RuntimeError::MethodArity { expected: 1, found: argv.len() });
                        }
                        let mut argv = argv;
                        let v0 = argv.remove(0);
                        let ghost old_vec = xs@;
                        let ghost old_xs_view = seq_view(xs@);
                        let ghost v0_view = v0@;
                        xs.push(v0);
                        proof {
                            broadcast use lemma_seq_view;

                            assert forall|k: int| 0 <= k < xs@.len() implies seq_view(xs@)[k]
                                == old_xs_view.push(v0_view)[k] by {
                                assert(seq_view(xs@)[k] == xs@[k]@);
                                if k < old_vec.len() {
                                    assert(xs@[k] == old_vec[k]);
                                    assert(old_xs_view[k] == old_vec[k]@);
                                }
                            }
                            assert(seq_view(xs@) =~= old_xs_view.push(v0_view));
                            assert(ValueView::List(old_xs_view)->List_0 == old_xs_view);
                            assert forall|k: int| 0 <= k < seq_view(xs@).len() implies value_wf(
                                #[trigger] seq_view(xs@)[k],
                                flen,
                            ) by {
                                if k < old_xs_view.len() {
                                    assert(seq_view(xs@)[k] == old_xs_view[k]);
                                } else {
                                    assert(seq_view(xs@)[k] == v0_view);
                                }
                            }
                            assert(value_wf(ValueView::List(seq_view(xs@)), flen)) by {
                                assert(ValueView::List(seq_view(xs@))->List_0 == seq_view(xs@));
                            }
                        }
                        let updated = self.globals.set_value(name, Value::List(xs));
                        proof {
                            assert(updated);
                        }
                        Ok(Value::Nil)
                    },
                    Value::Dict(mut ps) => {
                        if !str_eq(property.as_str(), "set") {
                            return Err(RuntimeError::UnknownMethod { property: property.clone() });
                        }
                        if argv.len() != 2 {
                            return Err(RuntimeError::MethodArity { expected: 2, found: argv.len() });
                        }
                        let mut argv = argv;
                        let k = argv.remove(0);
                        let v = argv.remove(0);
                        let ghost old_ps_view = pair_seq_view(ps@);
                        let ghost k_view = k@;
                        let ghost v_view = v@;
                        proof {
                            assert(ValueView::Dict(old_ps_view)->Dict_0 == old_ps_view);
                            lemma_dict_set_props(old_ps_view, k_view, v_view, flen);
                        }
                        dict_insert(&mut ps, k, v);
                        proof {
                            assert(pair_seq_view(ps@) =~= dict_set(old_ps_view, k_view, v_view));
                            assert(value_wf(ValueView::Dict(pair_seq_view(ps@)), flen)) by {
                                assert(ValueView::Dict(dict_set(old_ps_view, k_view, v_view))
                                    ->Dict_0 == dict_set(old_ps_view, k_view, v_view));
                                assert(ValueView::Dict(pair_seq_view(ps@))->Dict_0
                                    == pair_seq_view(ps@));
                            }
                        }
                        let updated = self.globals.set_value(name, Value::Dict(ps));
                        proof {
                            assert(updated);
                        }
                        Ok(Value::Nil)
                    },
                    _ => Err(RuntimeError::MethodTargetNotCollection),
                }
            },
        }
    }

    /// Execute one statement.
    pub fn exec_stmt<H: Host>(&mut self, host: &mut H, s: &Stmt, fuel: u64) -> (r: Result<
        Flow,
        RuntimeError,
    >)
        requires
            interp_wf(*old(self)),
        ensures
            interp_wf(*final(self)),
            evolves(*old(self), *final(self)),
            printed_grows(old(host).printed(), final(host).printed()),
            r matches Ok(f) ==> flow_wf(f, final(self).functions@.len() as nat),
            s.kind matches StmtKind::ConstDeclaration(d) ==> (fuel >= 2 + edepth(d.value) ==> (
            match pure_eval(old(self).globals, d.value) {
                Some(res) => match res {
                    Ok(v) => (r matches Ok(f) && f is Normal) && final(self).functions@ == old(
                        self,
                    ).functions@ && (forall|n: Seq<char>|
                        #[trigger] lookup(final(self).globals, n) == if n == d.name@ {
                            Some((v, false))
                        } else {
                            lookup(old(self).globals, n)
                        }),
                    Err(ev) => (r matches Err(e2) && result_rel(Err(ev), Err(e2)))
                        && *final(self) == *old(self) && *final(host) == *old(host),
                },
                None => true,
            })),
            s.kind matches StmtKind::VarDeclaration(d) ==> (fuel >= 2 + edepth(d.value) ==> (
            match pure_eval(old(self).globals, d.value) {
                Some(res) => match res {
                    Ok(v) => (r matches Ok(f) && f is Normal) && final(self).functions@ == old(
                        self,
                    ).functions@ && (forall|n: Seq<char>|
                        #[trigger] lookup(final(self).globals, n) == if n == d.name@ {
                            Some((v, false))
                        } else {
                            lookup(old(self).globals, n)
                        }),
                    Err(ev) => (r matches Err(e2) && result_rel(Err(ev), Err(e2)))
                        && *final(self) == *old(self) && *final(host) == *old(host),
                },
                None => true,
            })),
            s.kind matches StmtKind::MutDeclaration(d) ==> (fuel >= 2 + edepth(d.value) ==> (
            match pure_eval(old(self).globals, d.value) {
                Some(res) => match res {
                    Ok(v) => (r matches Ok(f) && f is Normal) && final(self).functions@ == old(
                        self,
                    ).functions@ && (forall|n: Seq<char>|
                        #[trigger] lookup(final(self).globals, n) == if n == d.name@ {
                            Some((v, true))
                        } else {
                            lookup(old(self).globals, n)
                        }),
                    Err(ev) => (r matches Err(e2) && result_rel(Err(ev), Err(e2)))
                        && *final(self) == *old(self) && *final(host) == *old(host),
                },
                None => true,
            })),
            s.kind matches StmtKind::VarAssignment(d) ==> (fuel >= 2 + edepth(d.value) ==> (
            match pure_eval(old(self).globals, d.value) {
                Some(res) => match res {
                    Ok(v) => (match lookup(old(self).globals, d.name@) {
                        Some(p) => if p.1 {
                            (r matches Ok(f) && f is Normal) && (forall|n: Seq<char>|
                                #[trigger] lookup(final(self).globals, n) == if n == d.name@ {
                                    Some((v, true))
                                } else {
                                    lookup(old(self).globals, n)
                                })
                        } else {
                            (r matches Err(RuntimeError::NotReassignable { name }) && name@
                                == d.name@) && *final(self) == *old(self) && *final(host)
                                == *old(host)
                        },
                        None => (r matches Err(RuntimeError::UnboundVariable { name }) && name@
                            == d.name@) && *final(self) == *old(self) && *final(host) == *old(
                            host,
                        ),
                    }),
                    Err(ev) => (r matches Err(e2) && result_rel(Err(ev), Err(e2)))
                        && *final(self) == *old(self) && *final(host) == *old(host),
                },
                None => true,
            })),
            fuel >= 2 ==> (s.kind matches StmtKind::Return(e) ==> simple_lit_view(e) matches Some(
                vv,
            ) ==> (r matches Ok(f) && f matches Flow::Return(v) && v@ == vv) && *final(self)
                == *old(self) && *final(host) == *old(host)),
            s.kind matches StmtKind::Return(e) ==> (fuel >= 2 + edepth(e) ==> (match pure_eval(
                old(self).globals,
                e,
            ) {
                Some(res) => match res {
                    Ok(v) => (r matches Ok(f) && f matches Flow::Return(rv) && rv@ == v)
                        && *final(self) == *old(self) && *final(host) == *old(host),
                    Err(ev) => (r matches Err(e2) && result_rel(Err(ev), Err(e2)))
                        && *final(self) == *old(self) && *final(host) == *old(host),
                },
                None => true,
            })),
            fuel >= 3 ==> (s.kind matches StmtKind::Print(es) ==> all_simple_lits(es@) ==> (r
                matches Ok(f) && f is Normal) && *final(self) == *old(self)
                && final(host).printed() == old(host).printed().push(joined_line(lit_views(es@)))),
            s.kind matches StmtKind::Print(es) ==> (fuel >= 3 + args_depth(es@) ==> all_pure_ok(
                old(self).globals,
                es@,
            ) ==> (r matches Ok(f) && f is Normal) && *final(self) == *old(self)
                && final(host).printed() == old(host).printed().push(
                joined_line(pure_vals(old(self).globals, es@)),
            )),
            fuel >= 1 ==> (s.kind matches StmtKind::Input { name, var_type } ==> (r matches Ok(f)
                ==> f is Normal && final(self).functions@ == old(self).functions@
                && (exists|vv: ValueView|
                lookup(final(self).globals, name@) == Some((vv, true)) && coerced_kind(
                    var_type,
                    vv,
                )) && (forall|n: Seq<char>|
                n != name@ ==> #[trigger] lookup(final(self).globals, n) == lookup(
                    old(self).globals,
                    n,
                )))),
            fuel >= 1 ==> (s.kind matches StmtKind::FuncDeclaration(fd) ==> (r matches Ok(f) && f
                is Normal) && final(self).functions@.len() == old(self).functions@.len() + 1
                && final(self).functions@.last().name@ == fd.name@
                && final(self).functions@.last().params@.len() == fd.params@.len() && lookup(
                final(self).globals,
                fd.name@,
            ) == Some(
                (
                    ValueView::Function {
                        index: old(self).functions@.len() as int,
                        name: fd.name@,
                    },
                    false,
                ),
            ) && (forall|n: Seq<char>|
                n != fd.name@ ==> #[trigger] lookup(final(self).globals, n) == lookup(
                    old(self).globals,
                    n,
                ))),
        decreases fuel,
    {
        if fuel == 0 {
            return Err(RuntimeError::BudgetExhausted);
        }
        match &s.kind {
            StmtKind::VarDeclaration(d) => {
                let v = self.eval_expr(host, &d.value, (fuel - 1) as u64)?;
                self.globals.define(d.name.clone(), v, false);
                Ok(Flow::Normal)
            },
            StmtKind::MutDeclaration(d) => {
                let v = self.eval_expr(host, &d.value, (fuel - 1) as u64)?;
                self.globals.define(d.name.clone(), v, true);
                Ok(Flow::Normal)
            },
            StmtKind::ConstDeclaration(d) => {
                let v = self.eval_expr(host, &d.value, (fuel - 1) as u64)?;
                self.globals.define(d.name.clone(), v, false);
                Ok(Flow::Normal)
            },
            StmtKind::VarAssignment(d) => {
                let v = self.eval_expr(host, &d.value, (fuel - 1) as u64)?;
                match self.globals.assign(&d.name, v) {
                    AssignOutcome::Assigned => Ok(Flow::Normal),
                    AssignOutcome::NotFound => Err(
                        RuntimeError::UnboundVariable { name: d.name.clone() },
                    ),
                    AssignOutcome::NotReassignable => Err(
                        RuntimeError::NotReassignable { name: d.name.clone() },
                    ),
                }
            },
            StmtKind::Print(es) => {
                let vals = self.eval_args(host, es, (fuel - 1) as u64)?;
                print_values(host, &vals);
                Ok(Flow::Normal)
            },
            StmtKind::Input { name, var_type } => {
                match host.read_line() {
                    None => Err(RuntimeError::InputClosed),
                    Some(line) => {
                        let cs = str_chars(line.as_str());
                        let t = trim_chars(&cs);
                        match coerce_input(&t, var_type) {
                            Err(e) => Err(e),
                            Ok(v) => {
                                let ghost vview = v@;
                                proof {
                                    assert(value_wf(v@, self.functions@.len() as nat));
                                    assert(coerced_kind(*var_type, vview));
                                }
                                self.globals.define(name.clone(), v, true);
                                proof {
                                    assert(lookup(self.globals, name@) == Some((vview, true)));
                                }
                                Ok(Flow::Normal)
                            },
                        }
                    },
                }
            },
            StmtKind::Conditional(c) => self.exec_conditional(host, c, (fuel - 1) as u64),
            StmtKind::Loop(l) => {
                match l {
                    LoopStmt::While { condition, body } => self.run_while(
                        host,
                        condition,
                        body,
                        (fuel - 1) as u64,
                    ),
                    LoopStmt::Until { .. } => Err(RuntimeError::NotYetImplemented),
                }
            },
            StmtKind::FuncDeclaration(fd) => {
                let owned = func_clone(fd);
                let idx = self.functions.len();
                self.functions.push(Rc::new(owned));
                proof {
                    lemma_table_values_wf_mono(
                        self.globals,
                        old(self).functions@.len() as nat,
                        self.functions@.len() as nat,
                    );
                }
                let fr = FunRef { index: idx, name: fd.name.clone() };
                self.globals.define(fd.name.clone(), Value::Function(fr), false);
                Ok(Flow::Normal)
            },
            StmtKind::Return(e) => {
                let v = self.eval_expr(host, e, (fuel - 1) as u64)?;
                Ok(Flow::Return(v))
            },
            StmtKind::FuncCall(e) => {
                let _ = self.eval_expr(host, e, (fuel - 1) as u64)?;
                Ok(Flow::Normal)
            },
        }
    }

    /// Execute the statements of a block in order; a `return` outcome
    /// stops the block at once and carries the value out.
    pub fn exec_block<H: Host>(&mut self, host: &mut H, stmts: &Vec<Stmt>, fuel: u64) -> (r: Result<
        Flow,
        RuntimeError,
    >)
        requires
            interp_wf(*old(self)),
        ensures
            interp_wf(*final(self)),
            evolves(*old(self), *final(self)),
            printed_grows(old(host).printed(), final(host).printed()),
            r matches Ok(f) ==> flow_wf(f, final(self).functions@.len() as nat),
            fuel == 0 ==> (r matches Err(RuntimeError::BudgetExhausted)) && *final(self) == *old(
                self,
            ) && *final(host) == *old(host),
            fuel >= 1 && stmts@.len() == 0 ==> (r matches Ok(f) && f is Normal) && *final(self)
                == *old(self) && *final(host) == *old(host),
            fuel >= 3 ==> (stmts@.len() >= 1 ==> (stmts@[0].kind matches StmtKind::Return(e) ==> (
            simple_lit_view(e) matches Some(vv) ==> (r matches Ok(f) && f matches Flow::Return(v)
                && v@ == vv) && *final(self) == *old(self) && *final(host) == *old(host)))),
            stmts@.len() >= 1 ==> (stmts@[0].kind matches StmtKind::Return(e) ==> (fuel >= 3
                + edepth(e) ==> (match pure_eval(old(self).globals, e) {
                Some(res) => (match res {
                    Ok(v) => r matches Ok(f) && f matches Flow::Return(rv) && rv@ == v,
                    Err(ev) => r matches Err(e2) && result_rel(Err(ev), Err(e2)),
                }) && *final(self) == *old(self) && *final(host) == *old(host),
                None => true,
            }))),
        decreases fuel,
    {
        if fuel == 0 {
            return Err(RuntimeError::BudgetExhausted);
        }
        let n = stmts.len();
        let mut i: usize = 0;
        let ghost old_it = *old(self);
        let ghost old_printed = old(host).printed();
        while i < n
            invariant
                fuel >= 1,
                old_it == *old(self),
                old_printed == old(host).printed(),
                n == stmts@.len(),
                i <= n,
                interp_wf(*self),
                evolves(old_it, *self),
                printed_grows(old_printed, host.printed()),
                n == 0 ==> *self == *old(self) && *host == *old(host),
                fuel >= 3 && n >= 1 ==> ((stmts@[0].kind matches StmtKind::Return(e)
                    && simple_lit_view(e) is Some) ==> i == 0 && *self == *old(self) && *host
                    == *old(host)),
                n >= 1 ==> (stmts@[0].kind matches StmtKind::Return(e) ==> (fuel >= 3 + edepth(e)
                    ==> (pure_eval(old(self).globals, e) is Some ==> i == 0 && *self == *old(
                    self,
                ) && *host == *old(host)))),
            decreases n - i,
        {
            let res = self.exec_stmt(host, &stmts[i], (fuel - 1) as u64);
            match flow_step(res) {
                FlowStep::Continue => {},
                FlowStep::Stop(stopped) => {
                    return stopped;
                },
            }
            i += 1;
        }
        Ok(Flow::Normal)
    }

    /// Execute a conditional: the first branch whose condition evaluates
    /// to the Boolean true runs, and only that one; a non-Boolean
    /// condition is a type failure.
    fn exec_conditional<H: Host>(
        &mut self,
        host: &mut H,
        c: &crate::ast::ConditionalStmt,
        fuel: u64,
    ) -> (r: Result<Flow, RuntimeError>)
        requires
            interp_wf(*old(self)),
        ensures
            interp_wf(*final(self)),
            evolves(*old(self), *final(self)),
            printed_grows(old(host).printed(), final(host).printed()),
            r matches Ok(f) ==> flow_wf(f, final(self).functions@.len() as nat),
            fuel >= 2 ==> (simple_lit_view(c.if_block.condition) matches Some(vv) ==> !(vv
                is Boolean) ==> (r matches Err(RuntimeError::ConditionNotBoolean)) && *final(self)
                == *old(self) && *final(host) == *old(host)),
            fuel >= 2 + edepth(c.if_block.condition) ==> (match pure_eval(
                old(self).globals,
                c.if_block.condition,
            ) {
                Some(cres) => match cres {
                    Ok(cv) => !(cv is Boolean) ==> (r matches Err(
                        RuntimeError::ConditionNotBoolean,
                    )) && *final(self) == *old(self) && *final(host) == *old(host),
                    Err(ev) => (r matches Err(e2) && result_rel(Err(ev), Err(e2)))
                        && *final(self) == *old(self) && *final(host) == *old(host),
                },
                None => true,
            }),
            fuel >= 2 + edepth(c.if_block.condition) ==> (pure_eval(
                old(self).globals,
                c.if_block.condition,
            ) == Some(Ok::<ValueView, ErrView>(ValueView::Boolean(true))) ==> (
            c.if_block.body@.len() >= 1 ==> (c.if_block.body@[0].kind matches StmtKind::Return(e)
                ==> (fuel >= 4 + edepth(e) ==> (match pure_eval(old(self).globals, e) {
                Some(res) => (match res {
                    Ok(v) => r matches Ok(f) && f matches Flow::Return(rv) && rv@ == v,
                    Err(ev) => r matches Err(e2) && result_rel(Err(ev), Err(e2)),
                }) && *final(self) == *old(self) && *final(host) == *old(host),
                None => true,
            }))))),
            fuel >= 2 ==> (c.if_block.condition.kind matches ExprKind::Literal(
                LiteralValue::Boolean(true),
            ) ==> c.if_block.body@.len() == 0 ==> (r matches Ok(f) && f is Normal) && *final(self)
                == *old(self) && *final(host) == *old(host)),
            fuel >= 2 ==> (c.if_block.condition.kind matches ExprKind::Literal(
                LiteralValue::Boolean(false),
            ) ==> c.elif_blocks@.len() >= 1 ==> (c.elif_blocks@[0].condition.kind
                matches ExprKind::Literal(LiteralValue::Boolean(true))
                ==> c.elif_blocks@[0].body@.len() == 0 ==> (r matches Ok(f) && f is Normal)
                && *final(self) == *old(self) && *final(host) == *old(host))),
            fuel >= 4 ==> (c.if_block.condition.kind matches ExprKind::Literal(
                LiteralValue::Boolean(false),
            ) ==> c.elif_blocks@.len() >= 1 ==> (c.elif_blocks@[0].condition.kind
                matches ExprKind::Literal(LiteralValue::Boolean(true))
                ==> c.elif_blocks@[0].body@.len() >= 1 ==> (c.elif_blocks@[0].body@[0].kind
                matches StmtKind::Return(e) ==> (simple_lit_view(e) matches Some(vv) ==> (r
                matches Ok(f) && f matches Flow::Return(v) && v@ == vv) && *final(self) == *old(
                self,
            ) && *final(host) == *old(host))))),
            fuel >= 2 ==> (c.if_block.condition.kind matches ExprKind::Literal(
                LiteralValue::Boolean(false),
            ) ==> c.elif_blocks@.len() == 0 ==> (match c.else_block {
                Option::None => (r matches Ok(f) && f is Normal) && *final(self) == *old(self)
                    && *final(host) == *old(host),
                Option::Some(b) => b@.len() == 0 ==> (r matches Ok(f) && f is Normal)
                    && *final(self) == *old(self) && *final(host) == *old(host),
            })),
        decreases fuel,
    {
        if fuel == 0 {
            return Err(RuntimeError::BudgetExhausted);
        }
        let cv = self.eval_expr(host, &c.if_block.condition, (fuel - 1) as u64)?;
        match cv {
            Value::Boolean(true) => {
                return self.exec_block(host, &c.if_block.body, (fuel - 1) as u64);
            },
            Value::Boolean(false) => {},
            _ => {
                return Err(RuntimeError::ConditionNotBoolean);
            },
        }
        let n = c.elif_blocks.len();
        let mut i: usize = 0;
        let ghost old_it = *old(self);
        let ghost old_printed = old(host).printed();
        while i < n
            invariant
                fuel >= 1,
                old_it == *old(self),
                old_printed == old(host).printed(),
                n == c.elif_blocks@.len(),
                i <= n,
                interp_wf(*self),
                evolves(old_it, *self),
                printed_grows(old_printed, host.printed()),
                n == 0 && fuel >= 2 ==> (c.if_block.condition.kind matches ExprKind::Literal(
                    LiteralValue::Boolean(false),
                ) ==> *self == *old(self) && *host == *old(host)),
                n >= 1 && fuel >= 2 ==> (c.if_block.condition.kind matches ExprKind::Literal(
                    LiteralValue::Boolean(false),
                ) ==> (c.elif_blocks@[0].condition.kind matches ExprKind::Literal(
                    LiteralValue::Boolean(true),
                ) ==> i == 0 && *self == *old(self) && *host == *old(host))),
                fuel >= 2 + edepth(c.if_block.condition) ==> (match pure_eval(
                    old(self).globals,
                    c.if_block.condition,
                ) {
                    Some(cres) => cres matches Ok(cv) && cv is Boolean,
                    None => true,
                }),
                fuel >= 2 + edepth(c.if_block.condition) ==> pure_eval(
                    old(self).globals,
                    c.if_block.condition,
                ) != Some(Ok::<ValueView, ErrView>(ValueView::Boolean(true))),
                fuel >= 2 ==> (simple_lit_view(c.if_block.condition) matches Some(vv) ==> vv
                    is Boolean),
                fuel >= 2 ==> !(c.if_block.condition.kind matches ExprKind::Literal(
                    LiteralValue::Boolean(true),
                )),
            decreases n - i,
        {
            let bv = self.eval_expr(host, &c.elif_blocks[i].condition, (fuel - 1) as u64)?;
            match bv {
                Value::Boolean(true) => {
                    return self.exec_block(host, &c.elif_blocks[i].body, (fuel - 1) as u64);
                },
                Value::Boolean(false) => {},
                _ => {
                    return Err(RuntimeError::ConditionNotBoolean);
                },
            }
            i += 1;
        }
        match &c.else_block {
            Some(b) => self.exec_block(host, b, (fuel - 1) as u64),
            None => Ok(Flow::Normal),
        }
    }

    /// Execute a pre-condition loop: the condition is re-evaluated before
    /// every iteration, each iteration runs in a fresh scope so loop-local
    /// declarations do not leak, and a failure inside the body propagates
    /// after that scope is cleanly left. A loop whose condition is the
    /// literal false runs zero iterations and changes nothing.
    fn run_while<H: Host>(
        &mut self,
        host: &mut H,
        condition: &Expr,
        body: &Vec<Stmt>,
        fuel: u64,
    ) -> (r: Result<Flow, RuntimeError>)
        requires
            interp_wf(*old(self)),
        ensures
            interp_wf(*final(self)),
            evolves(*old(self), *final(self)),
            printed_grows(old(host).printed(), final(host).printed()),
            r matches Ok(f) ==> flow_wf(f, final(self).functions@.len() as nat),
            fuel >= 2 ==> (condition.kind matches ExprKind::Literal(LiteralValue::Boolean(false))
                ==> (r matches Ok(f) && f is Normal) && *final(self) == *old(self) && *final(host)
                == *old(host)),
            condition.kind matches ExprKind::Literal(LiteralValue::Boolean(true)) ==> !(r
                matches Ok(f) && f is Normal),
            fuel >= 2 + edepth(*condition) ==> (match pure_eval(old(self).globals, *condition) {
                Some(cres) => match cres {
                    Ok(cv) => {
                        &&& (cv matches ValueView::Boolean(b) ==> !b ==> (r matches Ok(f) && f
                            is Normal) && *final(self) == *old(self) && *final(host) == *old(
                            host,
                        ))
                        &&& (!(cv is Boolean) ==> (r matches Err(
                            RuntimeError::ConditionNotBoolean,
                        )) && *final(self) == *old(self) && *final(host) == *old(host))
                    },
                    Err(ev) => (r matches Err(e2) && result_rel(Err(ev), Err(e2)))
                        && *final(self) == *old(self) && *final(host) == *old(host),
                },
                None => true,
            }),
            fuel >= 4 ==> (condition.kind matches ExprKind::Literal(LiteralValue::Boolean(true))
                ==> (body@.len() >= 1 ==> (body@[0].kind matches StmtKind::Return(e) ==> (
            simple_lit_view(e) matches Some(vv) ==> (r matches Ok(f) && f matches Flow::Return(v)
                && v@ == vv) && final(self).globals.scopes@ == old(self).globals.scopes@
                && final(self).globals.floors@ == old(self).globals.floors@
                && final(self).functions@ == old(self).functions@ && *final(host) == *old(
                host,
            ))))),
            condition.kind matches ExprKind::Literal(LiteralValue::Boolean(true)) ==> (body@.len()
                >= 1 ==> (body@[0].kind matches StmtKind::Return(e) ==> (fuel >= 4 + edepth(e)
                ==> (match pure_eval(old(self).globals, e) {
                Some(res) => (match res {
                    Ok(v) => r matches Ok(f) && f matches Flow::Return(rv) && rv@ == v,
                    Err(ev) => r matches Err(e2) && result_rel(Err(ev), Err(e2)),
                }) && final(self).globals.scopes@ == old(self).globals.scopes@
                    && final(self).globals.floors@ == old(self).globals.floors@
                    && final(self).functions@ == old(self).functions@ && *final(host) == *old(
                    host,
                ),
                None => true,
            })))),
        decreases fuel,
    {
        let mut fuel_left: u64 = fuel;
        loop
            invariant
                interp_wf(*self),
                evolves(*old(self), *self),
                printed_grows(old(host).printed(), host.printed()),
                fuel_left <= fuel,
                fuel >= 2 ==> (condition.kind matches ExprKind::Literal(
                    LiteralValue::Boolean(false),
                ) ==> *self == *old(self) && *host == *old(host) && fuel_left == fuel),
                fuel >= 2 + edepth(*condition) ==> (match pure_eval(
                    old(self).globals,
                    *condition,
                ) {
                    Some(cres) => (match cres {
                        Ok(cv) => cv matches ValueView::Boolean(b) && b,
                        Err(ev) => false,
                    }) || (*self == *old(self) && *host == *old(host) && fuel_left == fuel),
                    None => true,
                }),
                fuel >= 4 ==> (condition.kind matches ExprKind::Literal(
                    LiteralValue::Boolean(true),
                ) ==> (body@.len() >= 1 ==> (body@[0].kind matches StmtKind::Return(e)
                    ==> simple_lit_view(e) is Some ==> *self == *old(self) && *host == *old(host)
                    && fuel_left == fuel))),
                condition.kind matches ExprKind::Literal(LiteralValue::Boolean(true)) ==> (
                body@.len() >= 1 ==> (body@[0].kind matches StmtKind::Return(e) ==> (fuel >= 4
                    + edepth(e) ==> (pure_eval(old(self).globals, e) is Some ==> *self == *old(
                    self,
                ) && *host == *old(host) && fuel_left == fuel)))),
            decreases fuel_left,
        {
            if fuel_left == 0 {
                return Err(RuntimeError::BudgetExhausted);
            }
            let cv = self.eval_expr(host, condition, (fuel_left - 1) as u64)?;
            let taken = match branch_decision(&cv) {
                Ok(b) => b,
                Err(e) => {
                    return Err(e);
                },
            };
            if taken {
                let ghost pre_iter = *self;
                self.globals.enter_scope();
                proof {
                    if pre_iter == *old(self) && body@.len() >= 1 {
                        match body@[0].kind {
                            StmtKind::Return(e) => {
                                lemma_pure_eval_lookup_agrees(
                                    self.globals,
                                    old(self).globals,
                                    e,
                                );
                            },
                            _ => {},
                        }
                    }
                }
                let body_res = self.exec_block(host, body, (fuel_left - 1) as u64);
                self.globals.exit_scope();
                match flow_step(body_res) {
                    FlowStep::Stop(stopped) => {
                        proof {
                            assert(stopped matches Ok(f2) ==> flow_wf(
                                f2,
                                self.functions@.len() as nat,
                            ));
                        }
                        return stopped;
                    },
                    FlowStep::Continue => {},
                }
            } else {
                return Ok(Flow::Normal);
            }
            fuel_left = fuel_left - 1;
        }
    }

    /// Run a program's statements in order against the current bindings,
    /// spending at most `fuel` nested evaluation steps and loop
    /// iterations.
    pub fn interpret_with_fuel<H: Host>(&mut self, host: &mut H, program: &Program, fuel: u64)
        -> (r: InterpretResult)
        requires
            interp_wf(*old(self)),
        ensures
            interp_wf(*final(self)),
            evolves(*old(self), *final(self)),
            printed_grows(old(host).printed(), final(host).printed()),
            program@.len() == 0 ==> (r is Finished) && *final(self) == *old(self) && *final(host)
                == *old(host),
            fuel >= 3 ==> (program@.len() == 1 ==> (program@[0].kind matches StmtKind::Print(es)
                ==> all_simple_lits(es@) ==> (r is Finished) && *final(self) == *old(self)
                && final(host).printed() == old(host).printed().push(
                joined_line(lit_views(es@)),
            ))),
            fuel >= 2 ==> (program@.len() >= 1 ==> (program@[0].kind matches StmtKind::Return(e)
                ==> simple_lit_view(e) is Some ==> (r matches InterpretResult::RuntimeError(err)
                && err is ReturnOutsideFunction) && *final(self) == *old(self) && *final(host)
                == *old(host))),
            program@.len() >= 1 ==> (program@[0].kind matches StmtKind::Return(e) ==> (fuel >= 2
                + edepth(e) ==> (match pure_eval(old(self).globals, e) {
                Some(res) => (match res {
                    Ok(v) => r matches InterpretResult::RuntimeError(err) && err
                        is ReturnOutsideFunction,
                    Err(ev) => r matches InterpretResult::RuntimeError(err) && err_view_rel(
                        ev,
                        err,
                    ),
                }) && *final(self) == *old(self) && *final(host) == *old(host),
                None => true,
            }))),
    {
        let n = program.len();
        let mut i: usize = 0;
        let ghost old_it = *old(self);
        let ghost old_printed = old(host).printed();
        while i < n
            invariant
                old_it == *old(self),
                old_printed == old(host).printed(),
                n == program@.len(),
                i <= n,
                interp_wf(*self),
                evolves(old_it, *self),
                printed_grows(old_printed, host.printed()),
                n == 0 ==> *self == *old(self) && *host == *old(host),
                fuel >= 3 && n == 1 ==> (program@[0].kind matches StmtKind::Print(es)
                    ==> all_simple_lits(es@) ==> ((i == 0 && *self == *old(self) && *host == *old(
                    host,
                )) || (i == 1 && *self == *old(self) && host.printed() == old(
                    host,
                ).printed().push(joined_line(lit_views(es@)))))),
                fuel >= 2 && n >= 1 ==> (program@[0].kind matches StmtKind::Return(e)
                    ==> simple_lit_view(e) is Some ==> i == 0 && *self == *old(self) && *host
                    == *old(host)),
                n >= 1 ==> (program@[0].kind matches StmtKind::Return(e) ==> (fuel >= 2 + edepth(
                    e,
                ) ==> (pure_eval(old(self).globals, e) is Some ==> i == 0 && *self == *old(self)
                    && *host == *old(host)))),
            decreases n - i,
        {
            let res = self.exec_stmt(host, &program[i], fuel);
            match top_level_step(res) {
                Some(reported) => {
                    return reported;
                },
                None => {},
            }
            i += 1;
        }
        InterpretResult::Finished
    }

    /// Run a program's statements in order against the current bindings.
    pub fn interpret<H: Host>(&mut self, host: &mut H, program: &Program) -> (r: InterpretResult)
        requires
            interp_wf(*old(self)),
        ensures
            interp_wf(*final(self)),
            evolves(*old(self), *final(self)),
            printed_grows(old(host).printed(), final(host).printed()),
            program@.len() == 0 ==> (r is Finished) && *final(self) == *old(self) && *final(host)
                == *old(host),
            program@.len() == 1 ==> (program@[0].kind matches StmtKind::Print(es)
                ==> all_simple_lits(es@) ==> (r is Finished) && *final(self) == *old(self)
                && final(host).printed() == old(host).printed().push(
                joined_line(lit_views(es@)),
            )),
            program@.len() >= 1 ==> (program@[0].kind matches StmtKind::Return(e)
                ==> simple_lit_view(e) is Some ==> (r matches InterpretResult::RuntimeError(err)
                && err is ReturnOutsideFunction) && *final(self) == *old(self) && *final(host)
                == *old(host)),
            program@.len() >= 1 ==> (program@[0].kind matches StmtKind::Return(e) ==> (edepth(e)
                + 2 <= u64::MAX ==> (match pure_eval(old(self).globals, e) {
                Some(res) => (match res {
                    Ok(v) => r matches InterpretResult::RuntimeError(err) && err
                        is ReturnOutsideFunction,
                    Err(ev) => r matches InterpretResult::RuntimeError(err) && err_view_rel(
                        ev,
                        err,
                    ),
                }) && *final(self) == *old(self) && *final(host) == *old(host),
                None => true,
            }))),
    {
        self.interpret_with_fuel(host, program, u64::MAX)
    }
}

/// How one run of the full pipeline on a source text ended.
pub enum RunOutcome {
    /// The text did not parse; nothing ran.
    ParseFailed(Diagnostic),
    /// The static analysis found problems; nothing ran.
    AnalysisFailed(Vec<Diagnostic>),
    /// The program parsed and validated; this is its execution's result.
    Ran(InterpretResult),
}

impl Interpreter {
    /// The full pipeline on one source text: parse, statically validate
    /// against the pre-declared host names, and only when the analysis
    /// finds nothing execute. A program that does not parse or does not
    /// validate runs zero statements: the interpreter and the host are
    /// untouched.
    pub fn run_source<H: Host>(&mut self, host: &mut H, source: &str, predeclared: &Vec<String>)
        -> (r: RunOutcome)
        requires
            interp_wf(*old(self)),
        ensures
            interp_wf(*final(self)),
            evolves(*old(self), *final(self)),
            printed_grows(old(host).printed(), final(host).printed()),
            r matches RunOutcome::ParseFailed(d) ==> *final(self) == *old(self) && *final(host)
                == *old(host),
            r matches RunOutcome::AnalysisFailed(ds) ==> ds@.len() > 0 && *final(self) == *old(
                self,
            ) && *final(host) == *old(host),
            source@.len() == 0 ==> (r matches RunOutcome::Ran(res) && res is Finished)
                && *final(self) == *old(self) && *final(host) == *old(host),
            source@ == seq!['('] ==> (r is ParseFailed) && *final(self) == *old(self)
                && *final(host) == *old(host),
    {
        let program = match parse_program(source) {
            Err(d) => {
                return RunOutcome::ParseFailed(d);
            },
            Ok(p) => p,
        };
        let mut analyzer = SemanticAnalyzer::new();
        let n = predeclared.len();
        let mut i: usize = 0;
        while i < n
            invariant
                n == predeclared@.len(),
                i <= n,
                analyzer.wf(),
                analyzer.errors@.len() == 0,
            decreases n - i,
        {
            analyzer.predeclare(predeclared[i].clone());
            i += 1;
        }
        analyzer.analyze(&program);
        if analyzer.errors.len() > 0 {
            return RunOutcome::AnalysisFailed(analyzer.errors);
        }
        RunOutcome::Ran(self.interpret(host, &program))
    }
}

} // verus!

//! The value operations of the evaluator: arithmetic, comparison,
//! equality, unary negation and index access, each with an exact,
//! input-total contract.

use vstd::prelude::*;

use crate::ast::BinaryOp;
use crate::dict::{dict_find, dict_get, lemma_dict_first_match, lemma_dict_no_match};
use crate::errors::RuntimeError;
use crate::render::{render, render_spec};
use crate::value::{
    key_matches, lemma_pair_seq_view, lemma_seq_view, pair_seq_view, seq_view, value_clone,
    value_eq, value_wf, veq, Value, ValueView,
};

verus! {

/// Truncated integer division, as the `/` of the language's Numbers
/// rounds: towards zero.
pub open spec fn trunc_div(x: int, d: int) -> int
    recommends
        d != 0,
{
    if x == 0 {
        0
    } else if x > 0 && d > 0 {
        x / d
    } else if x < 0 && d < 0 {
        ((x * -1) / (d * -1))
    } else if x < 0 {
        ((x * -1) / d) * -1
    } else {
        (x / (d * -1)) * -1
    }
}

/// What a binary operator yields on two operand values: the one place
/// every caller's contract points at.
pub open spec fn spec_binop(
    op: BinaryOp,
    a: ValueView,
    b: ValueView,
    r: Result<Value, RuntimeError>,
) -> bool {
    match op {
        BinaryOp::Add => spec_add(a, b, r),
        BinaryOp::Subtract => match (a, b) {
            (ValueView::Number(x), ValueView::Number(y)) => if i64::MIN <= x - y <= i64::MAX {
                r matches Ok(v) && v@ == ValueView::Number((x - y) as i64)
            } else {
                r matches Err(RuntimeError::NumericOverflow)
            },
            _ => r matches Err(RuntimeError::BadBinaryOperands),
        },
        BinaryOp::Multiply => match (a, b) {
            (ValueView::Number(x), ValueView::Number(y)) => if i64::MIN <= x * y <= i64::MAX {
                r matches Ok(v) && v@ == ValueView::Number((x * y) as i64)
            } else {
                r matches Err(RuntimeError::NumericOverflow)
            },
            _ => r matches Err(RuntimeError::BadBinaryOperands),
        },
        BinaryOp::Divide => spec_divide(a, b, r),
        BinaryOp::Equals => r matches Ok(v) && v@ == ValueView::Boolean(veq(a, b)),
        BinaryOp::NotEquals => r matches Ok(v) && v@ == ValueView::Boolean(!veq(a, b)),
        _ => match (a, b) {
            (ValueView::Number(x), ValueView::Number(y)) => r matches Ok(v) && v@
                == ValueView::Boolean(
                match op {
                    BinaryOp::GreaterThan => x > y,
                    BinaryOp::LessThan => x < y,
                    BinaryOp::GreaterThanOrEquals => x >= y,
                    _ => x <= y,
                },
            ),
            _ => r matches Err(RuntimeError::BadBinaryOperands),
        },
    }
}

/// What unary negation yields.
pub open spec fn spec_negate(a: ValueView, r: Result<Value, RuntimeError>) -> bool {
    match a {
        ValueView::Number(x) => if i64::MIN <= -(x as int) <= i64::MAX {
            r matches Ok(w) && w@ == ValueView::Number((-(x as int)) as i64)
        } else {
            r matches Err(RuntimeError::NumericOverflow)
        },
        _ => r matches Err(RuntimeError::BadUnaryOperand),
    }
}

/// What `+` yields: Number addition, String concatenation, or a String
/// joined with the rendering of the other operand.
pub open spec fn spec_add(a: ValueView, b: ValueView, r: Result<Value, RuntimeError>) -> bool {
    match (a, b) {
        (ValueView::Number(x), ValueView::Number(y)) => if i64::MIN <= x + y <= i64::MAX {
            r matches Ok(v) && v@ == ValueView::Number((x + y) as i64)
        } else {
            r matches Err(RuntimeError::NumericOverflow)
        },
        (ValueView::Str(x), ValueView::Str(y)) => r matches Ok(v) && v@ == ValueView::Str(x + y),
        (ValueView::Str(x), other) => r matches Ok(v) && v@ == ValueView::Str(
            x + render_spec(other),
        ),
        (other, ValueView::Str(y)) => r matches Ok(v) && v@ == ValueView::Str(
            render_spec(other) + y,
        ),
        _ => r matches Err(RuntimeError::BadBinaryOperands),
    }
}

/// Add two values.
pub fn add_values(l: Value, r: Value) -> (res: Result<Value, RuntimeError>)
    ensures
        spec_add(l@, r@, res),
{
    match (l, r) {
        (Value::Number(a), Value::Number(b)) => {
            match a.checked_add(b) {
                Some(s) => Ok(Value::Number(s)),
                None => Err(RuntimeError::NumericOverflow),
            }
        },
        (Value::Str(a), Value::Str(b)) => Ok(Value::Str(a.concat(b.as_str()))),
        (Value::Str(a), other) => {
            let rendered = render(&other);
            Ok(Value::Str(a.concat(rendered.as_str())))
        },
        (other, Value::Str(b)) => {
            let rendered = render(&other);
            Ok(Value::Str(rendered.concat(b.as_str())))
        },
        _ => Err(RuntimeError::BadBinaryOperands),
    }
}

/// Subtract two values; only Numbers subtract.
pub fn subtract_values(l: Value, r: Value) -> (res: Result<Value, RuntimeError>)
    ensures
        spec_binop(BinaryOp::Subtract, l@, r@, res),
{
    match (l, r) {
        (Value::Number(a), Value::Number(b)) => {
            match a.checked_sub(b) {
                Some(s) => Ok(Value::Number(s)),
                None => Err(RuntimeError::NumericOverflow),
            }
        },
        _ => Err(RuntimeError::BadBinaryOperands),
    }
}

/// Multiply two values; only Numbers multiply.
pub fn multiply_values(l: Value, r: Value) -> (res: Result<Value, RuntimeError>)
    ensures
        spec_binop(BinaryOp::Multiply, l@, r@, res),
{
    match (l, r) {
        (Value::Number(a), Value::Number(b)) => {
            match a.checked_mul(b) {
                Some(s) => Ok(Value::Number(s)),
                None => Err(RuntimeError::NumericOverflow),
            }
        },
        _ => Err(RuntimeError::BadBinaryOperands),
    }
}

/// What `/` yields: division by a zero Number is a distinct runtime
/// failure, never an infinite or otherwise made-up Number.
pub open spec fn spec_divide(a: ValueView, b: ValueView, r: Result<Value, RuntimeError>) -> bool {
    match (a, b) {
        (ValueView::Number(x), ValueView::Number(y)) => if y == 0 {
            r matches Err(RuntimeError::DivisionByZero)
        } else if i64::MIN <= trunc_div(x as int, y as int) <= i64::MAX {
            r matches Ok(v) && v@ == ValueView::Number(trunc_div(x as int, y as int) as i64)
        } else {
            r matches Err(RuntimeError::NumericOverflow)
        },
        _ => r matches Err(RuntimeError::BadBinaryOperands),
    }
}

/// Divide two values; only Numbers divide, and never by zero.
pub fn divide_values(l: Value, r: Value) -> (res: Result<Value, RuntimeError>)
    ensures
        spec_divide(l@, r@, res),
{
    match (l, r) {
        (Value::Number(a), Value::Number(b)) => {
            if b == 0 {
                Err(RuntimeError::DivisionByZero)
            } else {
                match a.checked_div(b) {
                    Some(q) => Ok(Value::Number(q)),
                    None => Err(RuntimeError::NumericOverflow),
                }
            }
        },
        _ => Err(RuntimeError::BadBinaryOperands),
    }
}

/// Division of a Number by the zero Number always fails with the
/// division-by-zero diagnostic, whatever the dividend.
pub proof fn lemma_divide_by_zero_always_fails(a: i64, r: Result<Value, RuntimeError>)
    requires
        spec_divide(ValueView::Number(a), ValueView::Number(0), r),
    ensures
        r matches Err(RuntimeError::DivisionByZero),
{
}

/// Compare two values with `>`, `<`, `>=` or `<=`; only Numbers compare.
pub fn compare_values(op: &BinaryOp, l: Value, r: Value) -> (res: Result<Value, RuntimeError>)
    requires
        op matches BinaryOp::GreaterThan || op matches BinaryOp::LessThan || op
            matches BinaryOp::GreaterThanOrEquals || op matches BinaryOp::LessThanOrEquals,
    ensures
        spec_binop(*op, l@, r@, res),
{
    match (l, r) {
        (Value::Number(a), Value::Number(b)) => {
            let c = match op {
                BinaryOp::GreaterThan => a > b,
                BinaryOp::LessThan => a < b,
                BinaryOp::GreaterThanOrEquals => a >= b,
                _ => a <= b,
            };
            Ok(Value::Boolean(c))
        },
        _ => Err(RuntimeError::BadBinaryOperands),
    }
}

/// Decide `==` or `!=`: structural equality over any pair of values;
/// never fails.
pub fn equality_values(negated: bool, l: &Value, r: &Value) -> (res: Value)
    ensures
        res@ == ValueView::Boolean(veq(l@, r@) != negated),
{
    let e = value_eq(l, r);
    Value::Boolean(e != negated)
}

/// Negate a value; only Numbers negate.
pub fn negate_value(v: Value) -> (res: Result<Value, RuntimeError>)
    ensures
        spec_negate(v@, res),
{
    match v {
        Value::Number(a) => {
            match 0i64.checked_sub(a) {
                Some(n) => Ok(Value::Number(n)),
                None => Err(RuntimeError::NumericOverflow),
            }
        },
        _ => Err(RuntimeError::BadUnaryOperand),
    }
}

/// What index access yields: an in-bounds list element, a dict value
/// under a present key, or the distinct failure naming what went wrong:
/// an out-of-bounds index is reported with both the size and the index,
/// a missing dict key is reported with the key.
pub open spec fn spec_index(a: ValueView, i: ValueView, r: Result<Value, RuntimeError>) -> bool {
    match a {
        ValueView::List(xs) => match i {
            ValueView::Number(ix) => if 0 <= ix < xs.len() {
                r matches Ok(v) && v@ == xs[ix as int]
            } else {
                r matches Err(RuntimeError::IndexOutOfBounds { len, index }) && len == xs.len()
                    && index == ix
            },
            _ => r matches Err(RuntimeError::ListIndexNotNumber { len, index }) && len == xs.len()
                && index@ == i,
        },
        ValueView::Dict(ps) => match dict_get(ps, i) {
            Some(v0) => r matches Ok(v) && v@ == v0,
            None => r matches Err(RuntimeError::KeyNotFound { key }) && key@ == i,
        },
        _ => r matches Err(RuntimeError::NotIndexable { target }) && target@ == a,
    }
}

/// A hit in a dict lookup yields one of the dict's stored values.
proof fn lemma_dict_get_stored(ps: Seq<(ValueView, ValueView)>, k: ValueView, v: ValueView)
    requires
        dict_get(ps, k) == Some(v),
    ensures
        exists|j: int| 0 <= j < ps.len() && (#[trigger] ps[j]).1 == v,
    decreases ps.len(),
{
    if ps.len() > 0 {
        if key_matches(k, ps[0].0) {
            assert(ps[0].1 == v);
        } else {
            lemma_dict_get_stored(ps.skip(1), k, v);
            let j = choose|j: int| 0 <= j < ps.skip(1).len() && (#[trigger] ps.skip(1)[j]).1 == v;
            assert(ps[j + 1] == ps.skip(1)[j]);
        }
    }
}

/// Whatever index access yields is well-formed when the indexed value is.
pub proof fn lemma_index_wf(
    a: ValueView,
    i: ValueView,
    r: Result<Value, RuntimeError>,
    flen: nat,
)
    requires
        spec_index(a, i, r),
        value_wf(a, flen),
    ensures
        r matches Ok(v) ==> value_wf(v@, flen),
{
    match a {
        ValueView::List(xs) => {
            assert(ValueView::List(xs)->List_0 == xs);
        },
        ValueView::Dict(ps) => {
            assert(ValueView::Dict(ps)->Dict_0 == ps);
            match dict_get(ps, i) {
                Some(v0) => {
                    lemma_dict_get_stored(ps, i, v0);
                    let j = choose|j: int| 0 <= j < ps.len() && (#[trigger] ps[j]).1 == v0;
                    assert(value_wf(ps[j].0, flen));
                    assert(value_wf(ps[j].1, flen));
                },
                None => {},
            }
        },
        _ => {},
    }
}

/// Index into a list or dict value.
pub fn index_values(target: Value, index: Value) -> (res: Result<Value, RuntimeError>)
    ensures
        spec_index(target@, index@, res),
{
    proof {
        broadcast use lemma_seq_view, lemma_pair_seq_view;

    }
    match target {
        Value::List(xs) => {
            proof {
                broadcast use lemma_seq_view;

                assert(seq_view(xs@).len() == xs@.len());
            }
            match index {
                Value::Number(ix) => {
                    if 0 <= ix && (ix as u64) < (xs.len() as u64) {
                        let i = ix as usize;
                        proof {
                            broadcast use lemma_seq_view;

                            assert(seq_view(xs@)[ix as int] == xs@[ix as int]@);
                        }
                        Ok(value_clone(&xs[i]))
                    } else {
                        proof {
                            broadcast use lemma_seq_view;

                        }
                        Err(RuntimeError::IndexOutOfBounds { len: xs.len(), index: ix })
                    }
                },
                other => {
                    proof {
                        broadcast use lemma_seq_view;

                    }
                    Err(RuntimeError::ListIndexNotNumber { len: xs.len(), index: other })
                },
            }
        },
        Value::Dict(ps) => {
            let found = dict_find(&ps, &index);
            match found {
                Some(j) => {
                    proof {
                        lemma_dict_first_match(pair_seq_view(ps@), index@, index@, j as int);
                    }
                    Ok(value_clone(&ps[j].1))
                },
                None => {
                    proof {
                        lemma_dict_no_match(pair_seq_view(ps@), index@, index@);
                    }
                    Err(RuntimeError::KeyNotFound { key: index })
                },
            }
        },
        other => Err(RuntimeError::NotIndexable { target: other }),
    }
}

} // verus!

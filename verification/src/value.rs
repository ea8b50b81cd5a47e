//! The runtime value model: the tagged value variants, their mathematical
//! abstraction, structural equality, well-formedness, and deep cloning.
//!
//! Dict values are kept as association lists with pairwise-distinct keys
//! (distinct under structural equality), so key lookup needs equality only
//! and no hashing of aggregate values.

use vstd::prelude::*;

verus! {

/// A reference to a declared function: an index into the interpreter's
/// registry of declarations, plus the declared name for rendering.
pub struct FunRef {
    pub index: usize,
    pub name: String,
}

/// A runtime value.
pub enum Value {
    /// An exact 64-bit signed integer.
    Number(i64),
    Str(String),
    Boolean(bool),
    List(Vec<Value>),
    /// Association list of key-value pairs; keys are pairwise distinct
    /// under structural equality.
    Dict(Vec<(Value, Value)>),
    Nil,
    /// A reference to a declared function.
    Function(FunRef),
    /// A host-registered native callable, identified by a host-chosen id.
    Native(u64),
}

/// The mathematical abstraction of a runtime value: what every contract in
/// the library speaks about.
#[verifier::ext_equal]
pub enum ValueView {
    Number(i64),
    Str(Seq<char>),
    Boolean(bool),
    List(Seq<ValueView>),
    Dict(Seq<(ValueView, ValueView)>),
    Nil,
    Function { index: int, name: Seq<char> },
    Native(u64),
}

/// Abstraction of a sequence of values.
pub open spec fn seq_view(s: Seq<Value>) -> Seq<ValueView>
    decreases s, 0int,
{
    if s.len() == 0 {
        Seq::empty()
    } else {
        seq_view(s.drop_last()).push(s.last()@)
    }
}

/// Abstraction of a sequence of key-value pairs.
pub open spec fn pair_seq_view(s: Seq<(Value, Value)>) -> Seq<(ValueView, ValueView)>
    decreases s, 0int,
{
    if s.len() == 0 {
        Seq::empty()
    } else {
        pair_seq_view(s.drop_last()).push((s.last().0@, s.last().1@))
    }
}

impl View for Value {
    type V = ValueView;

    open spec fn view(&self) -> ValueView
        decreases self, 1int,
    {
        match self {
            Value::Number(n) => ValueView::Number(*n),
            Value::Str(s) => ValueView::Str(s@),
            Value::Boolean(b) => ValueView::Boolean(*b),
            Value::List(xs) => ValueView::List(seq_view(xs@)),
            Value::Dict(ps) => ValueView::Dict(pair_seq_view(ps@)),
            Value::Nil => ValueView::Nil,
            Value::Function(f) => ValueView::Function { index: f.index as int, name: f.name@ },
            Value::Native(id) => ValueView::Native(*id),
        }
    }
}

proof fn lemma_seq_view_rec(s: Seq<Value>)
    ensures
        seq_view(s).len() == s.len(),
        forall|i: int| 0 <= i < s.len() ==> seq_view(s)[i] == #[trigger] s[i]@,
    decreases s,
{
    if s.len() > 0 {
        lemma_seq_view_rec(s.drop_last());
        assert(seq_view(s) == seq_view(s.drop_last()).push(s.last()@));
        assert forall|i: int| 0 <= i < s.len() implies seq_view(s)[i] == #[trigger] s[i]@ by {
            if i < s.len() - 1 {
                assert(s.drop_last()[i] == s[i]);
                assert(seq_view(s)[i] == seq_view(s.drop_last())[i]);
            } else {
                assert(s.last() == s[i]);
            }
        }
    }
}

/// `seq_view` is the element-wise abstraction.
pub broadcast proof fn lemma_seq_view(s: Seq<Value>)
    ensures
        (#[trigger] seq_view(s)).len() == s.len(),
        forall|i: int| 0 <= i < s.len() ==> seq_view(s)[i] == #[trigger] s[i]@,
{
    lemma_seq_view_rec(s);
}

proof fn lemma_pair_seq_view_rec(s: Seq<(Value, Value)>)
    ensures
        pair_seq_view(s).len() == s.len(),
        forall|i: int|
            0 <= i < s.len() ==> pair_seq_view(s)[i] == ((#[trigger] s[i]).0@, s[i].1@),
    decreases s,
{
    if s.len() > 0 {
        lemma_pair_seq_view_rec(s.drop_last());
        assert(pair_seq_view(s) == pair_seq_view(s.drop_last()).push((s.last().0@, s.last().1@)));
        assert forall|i: int| 0 <= i < s.len() implies pair_seq_view(s)[i] == ((#[trigger] s[i]).0@,
            s[i].1@,
        ) by {
            if i < s.len() - 1 {
                assert(s.drop_last()[i] == s[i]);
                assert(pair_seq_view(s)[i] == pair_seq_view(s.drop_last())[i]);
            } else {
                assert(s.last() == s[i]);
            }
        }
    }
}

/// `pair_seq_view` is the pair-wise abstraction.
pub broadcast proof fn lemma_pair_seq_view(s: Seq<(Value, Value)>)
    ensures
        (#[trigger] pair_seq_view(s)).len() == s.len(),
        forall|i: int|
            0 <= i < s.len() ==> pair_seq_view(s)[i] == ((#[trigger] s[i]).0@, s[i].1@),
{
    lemma_pair_seq_view_rec(s);
}

/// Structural equality of two values, the language's `==`. Lists compare
/// element by element; dicts compare as sets of key-value pairs. A
/// function value is a reference to a declared function, so two function
/// values are equal exactly when they reference the same declaration (the
/// same registry index, which also fixes the name); a re-declaration is a
/// new declaration and compares unequal to the old one.
pub open spec fn veq(a: ValueView, b: ValueView) -> bool
    decreases a, 0int,
{
    match (a, b) {
        (ValueView::Number(x), ValueView::Number(y)) => x == y,
        (ValueView::Str(x), ValueView::Str(y)) => x == y,
        (ValueView::Boolean(x), ValueView::Boolean(y)) => x == y,
        (ValueView::List(xs), ValueView::List(ys)) => {
            &&& xs.len() == ys.len()
            &&& forall|i: int| 0 <= i < xs.len() ==> veq(#[trigger] xs[i], ys[i])
        },
        (ValueView::Dict(xs), ValueView::Dict(ys)) => {
            &&& xs.len() == ys.len()
            &&& forall|i: int| 0 <= i < xs.len() ==> dict_has_pair(ys, #[trigger] xs[i])
        },
        (ValueView::Nil, ValueView::Nil) => true,
        (ValueView::Function { index: f, name: fname }, ValueView::Function {
            index: g,
            name: gname,
        }) => f == g && fname == gname,
        (ValueView::Native(m), ValueView::Native(n)) => m == n,
        _ => false,
    }
}

/// Some entry of the association list has a key structurally equal to the
/// pair's key and a value structurally equal to the pair's value.
pub open spec fn dict_has_pair(ys: Seq<(ValueView, ValueView)>, p: (ValueView, ValueView)) -> bool
    decreases p, 1int,
{
    exists|j: int| 0 <= j < ys.len() && veq(p.0, #[trigger] ys[j].0) && veq(p.1, ys[j].1)
}

/// Whether `k` matches the key `k0` of a dict entry, in either orientation
/// of structural equality.
pub open spec fn key_matches(k: ValueView, k0: ValueView) -> bool {
    veq(k, k0) || veq(k0, k)
}

/// The keys of an association list are pairwise distinct.
pub open spec fn dict_keys_unique(ps: Seq<(ValueView, ValueView)>) -> bool {
    forall|i: int, j: int|
        0 <= i < j < ps.len() ==> !key_matches(#[trigger] ps[i].0, #[trigger] ps[j].0)
}

/// Well-formedness of a value with respect to a function registry of
/// length `flen`: every function reference is in range and every dict
/// has pairwise-distinct keys, recursively.
pub open spec fn value_wf(v: ValueView, flen: nat) -> bool
    decreases v,
{
    match v {
        ValueView::List(xs) => forall|i: int|
            0 <= i < xs.len() ==> value_wf(#[trigger] xs[i], flen),
        ValueView::Dict(ps) => {
            &&& dict_keys_unique(ps)
            &&& forall|i: int|
                0 <= i < ps.len() ==> value_wf(#[trigger] ps[i].0, flen) && value_wf(
                    ps[i].1,
                    flen,
                )
        },
        ValueView::Function { index, .. } => index < flen,
        _ => true,
    }
}

/// Structural equality is reflexive.
pub broadcast proof fn lemma_veq_refl(v: ValueView)
    ensures
        #[trigger] veq(v, v),
    decreases v,
{
    match v {
        ValueView::List(xs) => {
            assert forall|i: int| 0 <= i < xs.len() implies veq(#[trigger] xs[i], xs[i]) by {
                lemma_veq_refl(xs[i]);
            }
        },
        ValueView::Dict(ps) => {
            assert forall|i: int| 0 <= i < ps.len() implies dict_has_pair(
                ps,
                #[trigger] ps[i],
            ) by {
                lemma_veq_refl(ps[i].0);
                lemma_veq_refl(ps[i].1);
                assert(0 <= i < ps.len() && veq(ps[i].0, ps[i].0) && veq(ps[i].1, ps[i].1));
            }
        },
        _ => {},
    }
}

/// A value well-formed for a registry of length `flen` stays well-formed
/// as the registry grows.
pub proof fn lemma_value_wf_mono(v: ValueView, flen1: nat, flen2: nat)
    requires
        value_wf(v, flen1),
        flen1 <= flen2,
    ensures
        value_wf(v, flen2),
    decreases v,
{
    match v {
        ValueView::List(xs) => {
            assert forall|i: int| 0 <= i < xs.len() implies value_wf(#[trigger] xs[i], flen2) by {
                lemma_value_wf_mono(xs[i], flen1, flen2);
            }
        },
        ValueView::Dict(ps) => {
            assert forall|i: int| 0 <= i < ps.len() implies value_wf(#[trigger] ps[i].0, flen2)
                && value_wf(ps[i].1, flen2) by {
                lemma_value_wf_mono(ps[i].0, flen1, flen2);
                lemma_value_wf_mono(ps[i].1, flen1, flen2);
            }
        },
        _ => {},
    }
}

/// Decide structural equality of two values.
pub fn value_eq(a: &Value, b: &Value) -> (r: bool)
    ensures
        r == veq(a@, b@),
    decreases *a, 0int,
{
    proof {
        broadcast use lemma_seq_view, lemma_pair_seq_view;

    }
    match (a, b) {
        (Value::Number(x), Value::Number(y)) => *x == *y,
        (Value::Str(x), Value::Str(y)) => x.eq(y),
        (Value::Boolean(x), Value::Boolean(y)) => *x == *y,
        (Value::List(xs), Value::List(ys)) => {
            if xs.len() != ys.len() {
                proof {
                    broadcast use lemma_seq_view;

                    assert(seq_view(xs@).len() != seq_view(ys@).len());
                    assert(!veq(a@, b@));
                }
                return false;
            }
            let n = xs.len();
            let mut i: usize = 0;
            while i < n
                invariant
                    n == xs@.len() == ys@.len(),
                    i <= n,
                    *a == Value::List(*xs),
                    *b == Value::List(*ys),
                    a@ == ValueView::List(seq_view(xs@)),
                    b@ == ValueView::List(seq_view(ys@)),
                    seq_view(xs@).len() == n && seq_view(ys@).len() == n,
                    forall|k: int|
                        0 <= k < i ==> veq(#[trigger] seq_view(xs@)[k], seq_view(ys@)[k]),
                decreases n - i,
            {
                proof {
                    broadcast use vstd::std_specs::vec::axiom_vec_index_decreases;

                    assert(decreases_to!(*a => a->List_0));
                    assert(decreases_to!(*xs => xs@[i as int]));
                    broadcast use lemma_seq_view;

                }
                if !value_eq(&xs[i], &ys[i]) {
                    proof {
                        broadcast use lemma_seq_view;

                        assert(!veq(seq_view(xs@)[i as int], seq_view(ys@)[i as int]));
                        assert(!veq(a@, b@));
                    }
                    return false;
                }
                i += 1;
            }
            proof {
                assert(veq(a@, b@));
            }
            true
        },
        (Value::Dict(xs), Value::Dict(ys)) => {
            if xs.len() != ys.len() {
                proof {
                    broadcast use lemma_pair_seq_view;

                    assert(pair_seq_view(xs@).len() != pair_seq_view(ys@).len());
                    assert(!veq(a@, b@));
                }
                return false;
            }
            let n = xs.len();
            let mut i: usize = 0;
            while i < n
                invariant
                    n == xs@.len() == ys@.len(),
                    i <= n,
                    *a == Value::Dict(*xs),
                    *b == Value::Dict(*ys),
                    a@ == ValueView::Dict(pair_seq_view(xs@)),
                    b@ == ValueView::Dict(pair_seq_view(ys@)),
                    pair_seq_view(xs@).len() == n && pair_seq_view(ys@).len() == n,
                    forall|k: int|
                        0 <= k < i ==> dict_has_pair(
                            pair_seq_view(ys@),
                            #[trigger] pair_seq_view(xs@)[k],
                        ),
                decreases n - i,
            {
                let mut j: usize = 0;
                let mut found = false;
                while j < n
                    invariant
                        n == xs@.len() == ys@.len(),
                        i < n,
                        j <= n,
                        *a == Value::Dict(*xs),
                        *b == Value::Dict(*ys),
                        a@ == ValueView::Dict(pair_seq_view(xs@)),
                        b@ == ValueView::Dict(pair_seq_view(ys@)),
                        pair_seq_view(xs@).len() == n && pair_seq_view(ys@).len() == n,
                        found ==> dict_has_pair(pair_seq_view(ys@), pair_seq_view(xs@)[i as int]),
                        !found ==> forall|m: int|
                            0 <= m < j ==> !(veq(
                                pair_seq_view(xs@)[i as int].0,
                                #[trigger] pair_seq_view(ys@)[m].0,
                            ) && veq(pair_seq_view(xs@)[i as int].1, pair_seq_view(ys@)[m].1)),
                    decreases n - j,
                {
                    proof {
                        broadcast use vstd::std_specs::vec::axiom_vec_index_decreases;

                        assert(decreases_to!(*a => a->Dict_0));
                        assert(decreases_to!(*xs => xs@[i as int]));
                        assert(decreases_to!(xs@[i as int] => xs@[i as int].0));
                        assert(decreases_to!(xs@[i as int] => xs@[i as int].1));
                        broadcast use lemma_seq_view, lemma_pair_seq_view;

                    }
                    if !found && value_eq(&xs[i].0, &ys[j].0) && value_eq(&xs[i].1, &ys[j].1) {
                        found = true;
                        proof {
                            let jj = j as int;
                            assert(0 <= jj < pair_seq_view(ys@).len() && veq(
                                pair_seq_view(xs@)[i as int].0,
                                pair_seq_view(ys@)[jj].0,
                            ) && veq(pair_seq_view(xs@)[i as int].1, pair_seq_view(ys@)[jj].1));
                        }
                    }
                    j += 1;
                }
                if !found {
                    proof {
                        assert(!dict_has_pair(pair_seq_view(ys@), pair_seq_view(xs@)[i as int]));
                        assert(!veq(a@, b@));
                    }
                    return false;
                }
                i += 1;
            }
            proof {
                assert(veq(a@, b@));
            }
            true
        },
        (Value::Nil, Value::Nil) => true,
        (Value::Function(f), Value::Function(g)) => f.index == g.index && crate::text::str_eq(
            f.name.as_str(),
            g.name.as_str(),
        ),
        (Value::Native(m), Value::Native(n)) => *m == *n,
        _ => false,
    }
}

/// Deep copy of a value; the copy abstracts to the same value.
pub fn value_clone(v: &Value) -> (r: Value)
    ensures
        r@ == v@,
    decreases *v,
{
    proof {
        broadcast use lemma_seq_view, lemma_pair_seq_view;

    }
    match v {
        Value::Number(n) => Value::Number(*n),
        Value::Str(s) => Value::Str(s.clone()),
        Value::Boolean(b) => Value::Boolean(*b),
        Value::List(xs) => {
            let n = xs.len();
            let mut out: Vec<Value> = Vec::new();
            let mut i: usize = 0;
            while i < n
                invariant
                    n == xs@.len(),
                    i <= n,
                    out@.len() == i,
                    *v == Value::List(*xs),
                    forall|k: int| 0 <= k < i ==> (#[trigger] out@[k])@ == xs@[k]@,
                decreases n - i,
            {
                proof {
                    broadcast use vstd::std_specs::vec::axiom_vec_index_decreases;

                    assert(decreases_to!(*v => v->List_0));
                    assert(decreases_to!(*xs => xs@[i as int]));
                }
                out.push(value_clone(&xs[i]));
                i += 1;
            }
            proof {
                broadcast use lemma_seq_view;

                assert forall|k: int| 0 <= k < xs@.len() implies seq_view(out@)[k] == seq_view(
                    xs@,
                )[k] by {
                    assert(out@[k]@ == xs@[k]@);
                }
                assert(seq_view(out@) =~= seq_view(xs@));
            }
            Value::List(out)
        },
        Value::Dict(ps) => {
            let n = ps.len();
            let mut out: Vec<(Value, Value)> = Vec::new();
            let mut i: usize = 0;
            while i < n
                invariant
                    n == ps@.len(),
                    i <= n,
                    out@.len() == i,
                    *v == Value::Dict(*ps),
                    forall|k: int|
                        0 <= k < i ==> (#[trigger] out@[k]).0@ == ps@[k].0@ && out@[k].1@
                            == ps@[k].1@,
                decreases n - i,
            {
                proof {
                    broadcast use vstd::std_specs::vec::axiom_vec_index_decreases;

                    assert(decreases_to!(*v => v->Dict_0));
                    assert(decreases_to!(*ps => ps@[i as int]));
                    assert(decreases_to!(ps@[i as int] => ps@[i as int].0));
                    assert(decreases_to!(ps@[i as int] => ps@[i as int].1));
                }
                let pair = (value_clone(&ps[i].0), value_clone(&ps[i].1));
                out.push(pair);
                i += 1;
            }
            proof {
                broadcast use lemma_pair_seq_view;

                assert forall|k: int| 0 <= k < ps@.len() implies pair_seq_view(out@)[k]
                    == pair_seq_view(ps@)[k] by {
                    assert(out@[k].0@ == ps@[k].0@ && out@[k].1@ == ps@[k].1@);
                }
                assert(pair_seq_view(out@) =~= pair_seq_view(ps@));
            }
            Value::Dict(out)
        },
        Value::Nil => Value::Nil,
        Value::Function(f) => Value::Function(FunRef { index: f.index, name: f.name.clone() }),
        Value::Native(id) => Value::Native(*id),
    }
}


/// Decide well-formedness of a value for a registry of length `flen`.
pub fn value_wf_check(v: &Value, flen: usize) -> (r: bool)
    ensures
        r == value_wf(v@, flen as nat),
    decreases *v, 1int,
{
    match v {
        Value::Number(_) => true,
        Value::Str(_) => true,
        Value::Boolean(_) => true,
        Value::Nil => true,
        Value::Native(_) => true,
        Value::Function(f) => f.index < flen,
        Value::List(xs) => {
            let n = xs.len();
            let mut i: usize = 0;
            proof {
                broadcast use lemma_seq_view;

            }
            while i < n
                invariant
                    n == xs@.len(),
                    i <= n,
                    *v == Value::List(*xs),
                    seq_view(xs@).len() == n,
                    forall|k: int| 0 <= k < i ==> value_wf(#[trigger] seq_view(xs@)[k], flen as nat),
                decreases n - i,
            {
                proof {
                    broadcast use vstd::std_specs::vec::axiom_vec_index_decreases;

                    assert(decreases_to!(*v => v->List_0));
                    assert(decreases_to!(*xs => xs@[i as int]));
                    broadcast use lemma_seq_view;

                }
                if !value_wf_check(&xs[i], flen) {
                    proof {
                        broadcast use lemma_seq_view;

                        assert(seq_view(xs@)[i as int] == xs@[i as int]@);
                        assert(v@ == ValueView::List(seq_view(xs@)));
                        assert(ValueView::List(seq_view(xs@))->List_0 == seq_view(xs@));
                        assert(!value_wf(seq_view(xs@)[i as int], flen as nat));
                        assert(!value_wf(v@, flen as nat)) by {
                            if value_wf(ValueView::List(seq_view(xs@)), flen as nat) {
                                assert(value_wf(seq_view(xs@)[i as int], flen as nat));
                            }
                        }
                    }
                    return false;
                }
                i += 1;
            }
            proof {
                assert(v@ == ValueView::List(seq_view(xs@)));
                assert(ValueView::List(seq_view(xs@))->List_0 == seq_view(xs@));
                assert(value_wf(v@, flen as nat));
            }
            true
        },
        Value::Dict(ps) => {
            let n = ps.len();
            let mut i: usize = 0;
            proof {
                broadcast use lemma_pair_seq_view;

            }
            while i < n
                invariant
                    n == ps@.len(),
                    i <= n,
                    *v == Value::Dict(*ps),
                    pair_seq_view(ps@).len() == n,
                    forall|k: int|
                        0 <= k < i ==> value_wf(#[trigger] pair_seq_view(ps@)[k].0, flen as nat)
                            && value_wf(pair_seq_view(ps@)[k].1, flen as nat),
                    forall|k1: int, k2: int|
                        0 <= k1 < k2 < i ==> !key_matches(
                            #[trigger] pair_seq_view(ps@)[k1].0,
                            #[trigger] pair_seq_view(ps@)[k2].0,
                        ),
                decreases n - i,
            {
                proof {
                    broadcast use vstd::std_specs::vec::axiom_vec_index_decreases;

                    assert(decreases_to!(*v => v->Dict_0));
                    assert(decreases_to!(*ps => ps@[i as int]));
                    assert(decreases_to!(ps@[i as int] => ps@[i as int].0));
                    assert(decreases_to!(ps@[i as int] => ps@[i as int].1));
                    broadcast use lemma_pair_seq_view;

                }
                if !value_wf_check(&ps[i].0, flen) {
                    proof {
                        broadcast use lemma_pair_seq_view;

                        assert(pair_seq_view(ps@)[i as int].0 == ps@[i as int].0@);
                        assert(v@ == ValueView::Dict(pair_seq_view(ps@)));
                        assert(ValueView::Dict(pair_seq_view(ps@))->Dict_0 == pair_seq_view(ps@));
                        assert(!value_wf(pair_seq_view(ps@)[i as int].0, flen as nat));
                        assert(!value_wf(v@, flen as nat)) by {
                            if value_wf(ValueView::Dict(pair_seq_view(ps@)), flen as nat) {
                                assert(value_wf(pair_seq_view(ps@)[i as int].0, flen as nat));
                            }
                        }
                    }
                    return false;
                }
                if !value_wf_check(&ps[i].1, flen) {
                    proof {
                        broadcast use lemma_pair_seq_view;

                        assert(pair_seq_view(ps@)[i as int].1 == ps@[i as int].1@);
                        assert(v@ == ValueView::Dict(pair_seq_view(ps@)));
                        assert(ValueView::Dict(pair_seq_view(ps@))->Dict_0 == pair_seq_view(ps@));
                        assert(!value_wf(pair_seq_view(ps@)[i as int].1, flen as nat));
                        assert(!value_wf(v@, flen as nat)) by {
                            if value_wf(ValueView::Dict(pair_seq_view(ps@)), flen as nat) {
                                assert(value_wf(pair_seq_view(ps@)[i as int].0, flen as nat));
                                assert(value_wf(pair_seq_view(ps@)[i as int].1, flen as nat));
                            }
                        }
                    }
                    return false;
                }
                let mut k: usize = 0;
                while k < i
                    invariant
                        n == ps@.len(),
                        i < n,
                        k <= i,
                        *v == Value::Dict(*ps),
                        pair_seq_view(ps@).len() == n,
                        value_wf(ps@[i as int].0@, flen as nat),
                        value_wf(ps@[i as int].1@, flen as nat),
                        forall|k1: int|
                            0 <= k1 < k ==> !key_matches(
                                #[trigger] pair_seq_view(ps@)[k1].0,
                                pair_seq_view(ps@)[i as int].0,
                            ),
                    decreases i - k,
                {
                    proof {
                        broadcast use vstd::std_specs::vec::axiom_vec_index_decreases;

                        assert(decreases_to!(*v => v->Dict_0));
                        assert(decreases_to!(*ps => ps@[k as int]));
                        assert(decreases_to!(ps@[k as int] => ps@[k as int].0));
                        assert(decreases_to!(*ps => ps@[i as int]));
                        assert(decreases_to!(ps@[i as int] => ps@[i as int].0));
                        broadcast use lemma_pair_seq_view;

                    }
                    if value_eq(&ps[k].0, &ps[i].0) || value_eq(&ps[i].0, &ps[k].0) {
                        proof {
                            broadcast use lemma_pair_seq_view;

                            assert(pair_seq_view(ps@)[k as int].0 == ps@[k as int].0@);
                            assert(pair_seq_view(ps@)[i as int].0 == ps@[i as int].0@);
                            assert(key_matches(
                                pair_seq_view(ps@)[k as int].0,
                                pair_seq_view(ps@)[i as int].0,
                            ));
                            assert(!dict_keys_unique(pair_seq_view(ps@)));
                            assert(v@ == ValueView::Dict(pair_seq_view(ps@)));
                            assert(ValueView::Dict(pair_seq_view(ps@))->Dict_0 == pair_seq_view(
                                ps@,
                            ));
                            assert(!value_wf(v@, flen as nat)) by {
                                if value_wf(ValueView::Dict(pair_seq_view(ps@)), flen as nat) {
                                    assert(dict_keys_unique(pair_seq_view(ps@)));
                                }
                            }
                        }
                        return false;
                    }
                    k += 1;
                }
                proof {
                    broadcast use lemma_pair_seq_view;

                    assert(pair_seq_view(ps@)[i as int].0 == ps@[i as int].0@);
                    assert(pair_seq_view(ps@)[i as int].1 == ps@[i as int].1@);
                    assert forall|k: int| 0 <= k < i + 1 implies value_wf(
                        #[trigger] pair_seq_view(ps@)[k].0,
                        flen as nat,
                    ) && value_wf(pair_seq_view(ps@)[k].1, flen as nat) by {
                        if k == i as int {
                            assert(pair_seq_view(ps@)[k].0 == ps@[i as int].0@);
                            assert(pair_seq_view(ps@)[k].1 == ps@[i as int].1@);
                        }
                    }
                    assert forall|k1: int, k2: int| 0 <= k1 < k2 < i + 1 implies !key_matches(
                        #[trigger] pair_seq_view(ps@)[k1].0,
                        #[trigger] pair_seq_view(ps@)[k2].0,
                    ) by {
                        if k2 == i as int {
                            assert(!key_matches(
                                pair_seq_view(ps@)[k1].0,
                                pair_seq_view(ps@)[i as int].0,
                            ));
                        }
                    }
                }
                i += 1;
            }
            proof {
                assert(dict_keys_unique(pair_seq_view(ps@)));
                assert(v@ == ValueView::Dict(pair_seq_view(ps@)));
                assert(ValueView::Dict(pair_seq_view(ps@))->Dict_0 == pair_seq_view(ps@));
                assert(value_wf(v@, flen as nat));
            }
            true
        },
    }
}

} // verus!




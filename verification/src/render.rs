//! Rendering of runtime values to text, as the print statement and the
//! string-coercing `+` operator display them.

use vstd::prelude::*;

use crate::text::{chars_to_string, i64_to_chars, num_chars};
use crate::value::{lemma_pair_seq_view, lemma_seq_view, pair_seq_view, seq_view, Value, ValueView};

verus! {

/// The textual rendering of a value.
pub open spec fn render_spec(v: ValueView) -> Seq<char>
    decreases v, 0int,
{
    match v {
        ValueView::Number(n) => num_chars(n as int),
        ValueView::Str(s) => s,
        ValueView::Boolean(b) => if b {
            seq!['t', 'r', 'u', 'e']
        } else {
            seq!['f', 'a', 'l', 's', 'e']
        },
        ValueView::List(xs) => seq!['['] + render_items(xs) + seq![']'],
        ValueView::Dict(ps) => seq!['{'] + render_entries(ps) + seq!['}'],
        ValueView::Nil => seq!['n', 'i', 'l'],
        ValueView::Function { name, .. } => seq!['<', 'f', 'u', 'n', ' '] + name + seq!['>'],
        ValueView::Native(_) => seq!['<', 'n', 'a', 't', 'i', 'v', 'e', '>'],
    }
}

/// The comma-separated renderings of the elements of a list.
pub open spec fn render_items(xs: Seq<ValueView>) -> Seq<char>
    decreases xs, 1int,
{
    if xs.len() == 0 {
        Seq::empty()
    } else if xs.len() == 1 {
        render_spec(xs[0])
    } else {
        render_items(xs.drop_last()) + seq![',', ' '] + render_spec(xs.last())
    }
}

/// The comma-separated `key: value` renderings of the entries of a dict.
pub open spec fn render_entries(ps: Seq<(ValueView, ValueView)>) -> Seq<char>
    decreases ps, 1int,
{
    if ps.len() == 0 {
        Seq::empty()
    } else if ps.len() == 1 {
        render_spec(ps[0].0) + seq![':', ' '] + render_spec(ps[0].1)
    } else {
        render_entries(ps.drop_last()) + seq![',', ' '] + render_spec(ps.last().0) + seq![':', ' ']
            + render_spec(ps.last().1)
    }
}

proof fn lemma_render_items_step(xs: Seq<ValueView>, i: int)
    requires
        0 <= i < xs.len(),
    ensures
        render_items(xs.take(i + 1)) == if i == 0 {
            render_spec(xs[0])
        } else {
            render_items(xs.take(i)) + seq![',', ' '] + render_spec(xs[i])
        },
{
    let t = xs.take(i + 1);
    assert(t.len() == i + 1);
    if i == 0 {
        assert(t[0] == xs[0]);
    } else {
        assert(t.drop_last() =~= xs.take(i));
        assert(t.last() == xs[i]);
    }
}

proof fn lemma_render_entries_step(ps: Seq<(ValueView, ValueView)>, i: int)
    requires
        0 <= i < ps.len(),
    ensures
        render_entries(ps.take(i + 1)) == if i == 0 {
            render_spec(ps[0].0) + seq![':', ' '] + render_spec(ps[0].1)
        } else {
            render_entries(ps.take(i)) + seq![',', ' '] + render_spec(ps[i].0) + seq![':', ' ']
                + render_spec(ps[i].1)
        },
{
    let t = ps.take(i + 1);
    assert(t.len() == i + 1);
    if i == 0 {
        assert(t[0] == ps[0]);
    } else {
        assert(t.drop_last() =~= ps.take(i));
        assert(t.last() == ps[i]);
    }
}

/// Render a value to its characters.
pub fn render_chars(v: &Value) -> (r: Vec<char>)
    ensures
        r@ == render_spec(v@),
    decreases *v,
{
    match v {
        Value::Number(n) => {
            let r = i64_to_chars(*n);
            r
        },
        Value::Str(s) => {
            let r = crate::text::str_chars(s.as_str());
            r
        },
        Value::Boolean(b) => {
            let mut r: Vec<char> = Vec::new();
            if *b {
                r.push('t');
                r.push('r');
                r.push('u');
                r.push('e');
                proof {
                    assert(r@ =~= seq!['t', 'r', 'u', 'e']);
                }
            } else {
                r.push('f');
                r.push('a');
                r.push('l');
                r.push('s');
                r.push('e');
                proof {
                    assert(r@ =~= seq!['f', 'a', 'l', 's', 'e']);
                }
            }
            r
        },
        Value::List(xs) => {
            let n = xs.len();
            let mut r: Vec<char> = Vec::new();
            r.push('[');
            proof {
                broadcast use lemma_seq_view;

                assert(r@ =~= seq!['['] + render_items(seq_view(xs@).take(0)));
            }
            let mut i: usize = 0;
            while i < n
                invariant
                    n == xs@.len(),
                    i <= n,
                    *v == Value::List(*xs),
                    seq_view(xs@).len() == n,
                    r@ =~= seq!['['] + render_items(seq_view(xs@).take(i as int)),
                decreases n - i,
            {
                proof {
                    broadcast use vstd::std_specs::vec::axiom_vec_index_decreases;

                    assert(decreases_to!(*v => v->List_0));
                    assert(decreases_to!(*xs => xs@[i as int]));
                }
                if i > 0 {
                    r.push(',');
                    r.push(' ');
                }
                let mut item = render_chars(&xs[i]);
                r.append(&mut item);
                proof {
                    broadcast use lemma_seq_view;

                    lemma_render_items_step(seq_view(xs@), i as int);
                    assert(r@ =~= seq!['['] + render_items(seq_view(xs@).take(i + 1)));
                }
                i += 1;
            }
            r.push(']');
            proof {
                assert(seq_view(xs@).take(n as int) =~= seq_view(xs@));
                assert(r@ =~= seq!['['] + render_items(seq_view(xs@)) + seq![']']);
            }
            r
        },
        Value::Dict(ps) => {
            let n = ps.len();
            let mut r: Vec<char> = Vec::new();
            r.push('{');
            proof {
                broadcast use lemma_pair_seq_view;

                assert(r@ =~= seq!['{'] + render_entries(pair_seq_view(ps@).take(0)));
            }
            let mut i: usize = 0;
            while i < n
                invariant
                    n == ps@.len(),
                    i <= n,
                    *v == Value::Dict(*ps),
                    pair_seq_view(ps@).len() == n,
                    r@ =~= seq!['{'] + render_entries(pair_seq_view(ps@).take(i as int)),
                decreases n - i,
            {
                proof {
                    broadcast use vstd::std_specs::vec::axiom_vec_index_decreases;

                    assert(decreases_to!(*v => v->Dict_0));
                    assert(decreases_to!(*ps => ps@[i as int]));
                    assert(decreases_to!(ps@[i as int] => ps@[i as int].0));
                    assert(decreases_to!(ps@[i as int] => ps@[i as int].1));
                }
                if i > 0 {
                    r.push(',');
                    r.push(' ');
                }
                let mut key = render_chars(&ps[i].0);
                r.append(&mut key);
                r.push(':');
                r.push(' ');
                let mut val = render_chars(&ps[i].1);
                r.append(&mut val);
                proof {
                    broadcast use lemma_pair_seq_view;

                    lemma_render_entries_step(pair_seq_view(ps@), i as int);
                    assert(r@ =~= seq!['{'] + render_entries(pair_seq_view(ps@).take(i + 1)));
                }
                i += 1;
            }
            r.push('}');
            proof {
                assert(pair_seq_view(ps@).take(n as int) =~= pair_seq_view(ps@));
                assert(r@ =~= seq!['{'] + render_entries(pair_seq_view(ps@)) + seq!['}']);
            }
            r
        },
        Value::Nil => {
            let mut r: Vec<char> = Vec::new();
            r.push('n');
            r.push('i');
            r.push('l');
            proof {
                assert(r@ =~= seq!['n', 'i', 'l']);
            }
            r
        },
        Value::Function(f) => {
            let mut r: Vec<char> = Vec::new();
            r.push('<');
            r.push('f');
            r.push('u');
            r.push('n');
            r.push(' ');
            let mut name = crate::text::str_chars(f.name.as_str());
            r.append(&mut name);
            r.push('>');
            proof {
                assert(r@ =~= seq!['<', 'f', 'u', 'n', ' '] + f.name@ + seq!['>']);
            }
            r
        },
        Value::Native(_) => {
            let mut r: Vec<char> = Vec::new();
            r.push('<');
            r.push('n');
            r.push('a');
            r.push('t');
            r.push('i');
            r.push('v');
            r.push('e');
            r.push('>');
            proof {
                assert(r@ =~= seq!['<', 'n', 'a', 't', 'i', 'v', 'e', '>']);
            }
            r
        },
    }
}

/// Render a value to text.
pub fn render(v: &Value) -> (r: String)
    ensures
        r@ == render_spec(v@),
{
    let cs = render_chars(v);
    chars_to_string(&cs)
}

} // verus!

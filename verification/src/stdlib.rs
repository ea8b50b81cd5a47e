//! Registration of the host-provided standard library: before execution,
//! the global scope is seeded with named native callables and named
//! native modules (dicts mapping names to native callables). The host
//! performs the work behind each native id. String interpolation is the
//! `format` callable's job: the evaluator passes string values through
//! verbatim and resolves no markers itself.

use vstd::prelude::*;

use crate::dict::dict_set;
use crate::symbol_table::{lookup, table_shape_wf, table_values_wf, SymbolTable};
use crate::value::{
    dict_keys_unique, lemma_veq_refl, pair_seq_view, value_wf, Value, ValueView,
};

verus! {

/// The native id a host receives for the global `format` callable.
pub const NATIVE_FORMAT: u64 = 1;

/// The first native id of the `string` module.
pub const NATIVE_STRING_UPPER: u64 = 2;

/// The second native id of the `string` module.
pub const NATIVE_STRING_LOWER: u64 = 3;

/// The first native id of the `math` module.
pub const NATIVE_MATH_ABS: u64 = 4;

/// The second native id of the `math` module.
pub const NATIVE_MATH_MAX: u64 = 5;

/// The first native id of the `collections` module.
pub const NATIVE_COLLECTIONS_LEN: u64 = 6;

/// The first native id of the `blaze` module.
pub const NATIVE_BLAZE_CREATE: u64 = 7;

/// The first native id of the `blaze_auth` module.
pub const NATIVE_BLAZE_AUTH_LOGIN: u64 = 8;

/// The first native id of the `blaze_db` module.
pub const NATIVE_BLAZE_DB_EXECUTE: u64 = 9;

/// Build a one-entry or two-entry module dict of native callables.
fn module_dict(names: Vec<String>, first_id: u64) -> (r: Value)
    ensures
        forall|flen: nat| #[trigger] value_wf(r@, flen),
        r@ is Dict,
{
    let n = names.len();
    let mut ps: Vec<(Value, Value)> = Vec::new();
    let mut id = first_id;
    let mut i: usize = 0;
    let mut names = names;
    proof {
        assert(pair_seq_view(ps@) =~= Seq::<(ValueView, ValueView)>::empty());
    }
    while i < n
        invariant
            i <= n,
            names@.len() == n - i,
            forall|flen: nat| #[trigger] value_wf(ValueView::Dict(pair_seq_view(ps@)), flen),
        decreases n - i,
    {
        let name = names.remove(0);
        let ghost before = pair_seq_view(ps@);
        let ghost kview = ValueView::Str(name@);
        proof {
            broadcast use lemma_veq_refl;

            assert(value_wf(ValueView::Dict(before), 0nat));
            assert(ValueView::Dict(before)->Dict_0 == before);
            assert(dict_keys_unique(before));
            assert(value_wf(kview, 0nat));
            assert(value_wf(ValueView::Native(id), 0nat));
            crate::dict::lemma_dict_set_props(before, kview, ValueView::Native(id), 0nat);
        }
        crate::dict::dict_insert(&mut ps, Value::Str(name), Value::Native(id));
        proof {
            assert(pair_seq_view(ps@) =~= dict_set(before, kview, ValueView::Native(id)));
            assert forall|flen: nat| #[trigger] value_wf(
                ValueView::Dict(pair_seq_view(ps@)),
                flen,
            ) by {
                crate::value::lemma_value_wf_mono(ValueView::Dict(pair_seq_view(ps@)), 0nat, flen);
            }
        }
        if id < u64::MAX {
            id = id + 1;
        }
        i += 1;
    }
    let r = Value::Dict(ps);
    proof {
        assert(r@ == ValueView::Dict(pair_seq_view(ps@)));
        assert forall|flen: nat| #[trigger] value_wf(r@, flen) by {
            assert(value_wf(ValueView::Dict(pair_seq_view(ps@)), flen));
        }
    }
    r
}

fn one_name(a: &str) -> (r: Vec<String>)
    ensures
        r@.len() == 1,
{
    let mut v: Vec<String> = Vec::new();
    v.push(String::from_str(a));
    v
}

fn two_names(a: &str, b: &str) -> (r: Vec<String>)
    ensures
        r@.len() == 2,
{
    let mut v: Vec<String> = Vec::new();
    v.push(String::from_str(a));
    v.push(String::from_str(b));
    v
}

/// Install the standard-library modules and the global `format` callable
/// into the global scope, as non-reassignable bindings. Every other
/// binding is left untouched.
pub fn register_stdlib(globals: &mut SymbolTable)
    requires
        table_shape_wf(*old(globals)),
    ensures
        table_shape_wf(*final(globals)),
        final(globals).scopes@.len() == old(globals).scopes@.len(),
        final(globals).floors@ == old(globals).floors@,
        lookup(*final(globals), "format"@) matches Some(p) && p.0 is Native && !p.1,
        lookup(*final(globals), "string"@) matches Some(p) && p.0 is Dict && !p.1,
        lookup(*final(globals), "math"@) matches Some(p) && p.0 is Dict && !p.1,
        lookup(*final(globals), "collections"@) matches Some(p) && p.0 is Dict && !p.1,
        lookup(*final(globals), "blaze"@) matches Some(p) && p.0 is Dict && !p.1,
        lookup(*final(globals), "blaze_auth"@) matches Some(p) && p.0 is Dict && !p.1,
        lookup(*final(globals), "blaze_db"@) matches Some(p) && p.0 is Dict && !p.1,
        forall|n: Seq<char>|
            n != "format"@ && n != "string"@ && n != "math"@ && n != "collections"@ && n
                != "blaze"@ && n != "blaze_auth"@ && n != "blaze_db"@ ==> #[trigger] lookup(
                *final(globals),
                n,
            ) == lookup(*old(globals), n),
        forall|flen: nat|
            table_values_wf(*old(globals), flen) ==> #[trigger] table_values_wf(
                *final(globals),
                flen,
            ),
{
    proof {
        reveal_strlit("format");
        reveal_strlit("string");
        reveal_strlit("math");
        reveal_strlit("collections");
        reveal_strlit("blaze");
        reveal_strlit("blaze_auth");
        reveal_strlit("blaze_db");
        assert("format"@ =~= seq!['f', 'o', 'r', 'm', 'a', 't']);
        assert("string"@ =~= seq!['s', 't', 'r', 'i', 'n', 'g']);
        assert("math"@ =~= seq!['m', 'a', 't', 'h']);
        assert("collections"@ =~= seq![
            'c', 'o', 'l', 'l', 'e', 'c', 't', 'i', 'o', 'n', 's'
        ]);
        assert("blaze"@ =~= seq!['b', 'l', 'a', 'z', 'e']);
        assert("blaze_auth"@ =~= seq!['b', 'l', 'a', 'z', 'e', '_', 'a', 'u', 't', 'h']);
        assert("blaze_db"@ =~= seq!['b', 'l', 'a', 'z', 'e', '_', 'd', 'b']);
    }
    let string_mod = module_dict(two_names("upper", "lower"), NATIVE_STRING_UPPER);
    globals.define(String::from_str("string"), string_mod, false);
    globals.define(String::from_str("format"), Value::Native(NATIVE_FORMAT), false);
    let math_mod = module_dict(two_names("abs", "max"), NATIVE_MATH_ABS);
    globals.define(String::from_str("math"), math_mod, false);
    let blaze_mod = module_dict(one_name("create"), NATIVE_BLAZE_CREATE);
    globals.define(String::from_str("blaze"), blaze_mod, false);
    let auth_mod = module_dict(one_name("login"), NATIVE_BLAZE_AUTH_LOGIN);
    globals.define(String::from_str("blaze_auth"), auth_mod, false);
    let coll_mod = module_dict(one_name("len"), NATIVE_COLLECTIONS_LEN);
    globals.define(String::from_str("collections"), coll_mod, false);
    let db_mod = module_dict(one_name("execute"), NATIVE_BLAZE_DB_EXECUTE);
    globals.define(String::from_str("blaze_db"), db_mod, false);
}

} // verus!

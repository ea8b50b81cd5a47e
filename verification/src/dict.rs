//! Key lookup and insertion for dict values, over association lists whose
//! keys are pairwise distinct under structural equality.

use vstd::prelude::*;

use crate::value::{
    dict_keys_unique, key_matches, lemma_pair_seq_view, lemma_veq_refl, pair_seq_view, value_clone,
    value_eq, value_wf, Value, ValueView,
};

verus! {

/// The value stored under the first key matching `k`, if any.
pub open spec fn dict_get(ps: Seq<(ValueView, ValueView)>, k: ValueView) -> Option<ValueView>
    decreases ps.len(),
{
    if ps.len() == 0 {
        None
    } else if key_matches(k, ps[0].0) {
        Some(ps[0].1)
    } else {
        dict_get(ps.skip(1), k)
    }
}

/// The association list after binding `k` to `v`: the first entry with a
/// matching key has its value replaced, or a new entry is appended.
pub open spec fn dict_set(
    ps: Seq<(ValueView, ValueView)>,
    k: ValueView,
    v: ValueView,
) -> Seq<(ValueView, ValueView)>
    decreases ps.len(),
{
    if ps.len() == 0 {
        seq![(k, v)]
    } else if key_matches(k, ps[0].0) {
        seq![(ps[0].0, v)] + ps.skip(1)
    } else {
        seq![ps[0]] + dict_set(ps.skip(1), k, v)
    }
}

/// When the first matching key sits at index `i`, lookup yields that entry's
/// value and insertion updates that entry in place.
pub proof fn lemma_dict_first_match(
    ps: Seq<(ValueView, ValueView)>,
    k: ValueView,
    v: ValueView,
    i: int,
)
    requires
        0 <= i < ps.len(),
        key_matches(k, ps[i].0),
        forall|j: int| 0 <= j < i ==> !key_matches(k, #[trigger] ps[j].0),
    ensures
        dict_get(ps, k) == Some(ps[i].1),
        dict_set(ps, k, v) =~= ps.update(i, (ps[i].0, v)),
    decreases ps.len(),
{
    if i == 0 {
        assert(dict_set(ps, k, v) =~= ps.update(0, (ps[0].0, v)));
    } else {
        assert(!key_matches(k, ps[0].0));
        lemma_dict_first_match(ps.skip(1), k, v, i - 1);
        assert(dict_set(ps, k, v) =~= ps.update(i, (ps[i].0, v)));
    }
}

/// When no key matches, lookup misses and insertion appends.
pub proof fn lemma_dict_no_match(ps: Seq<(ValueView, ValueView)>, k: ValueView, v: ValueView)
    requires
        forall|j: int| 0 <= j < ps.len() ==> !key_matches(k, #[trigger] ps[j].0),
    ensures
        dict_get(ps, k) is None,
        dict_set(ps, k, v) =~= ps.push((k, v)),
    decreases ps.len(),
{
    if ps.len() > 0 {
        lemma_dict_no_match(ps.skip(1), k, v);
        assert(dict_set(ps, k, v) =~= ps.push((k, v)));
    }
}

/// After binding `k` to `v`, looking `k` up yields `v`, and key
/// distinctness as well as value well-formedness are preserved.
pub proof fn lemma_dict_set_props(
    ps: Seq<(ValueView, ValueView)>,
    k: ValueView,
    v: ValueView,
    flen: nat,
)
    requires
        dict_keys_unique(ps),
        value_wf(ValueView::Dict(ps), flen),
        value_wf(k, flen),
        value_wf(v, flen),
    ensures
        dict_get(dict_set(ps, k, v), k) == Some(v),
        dict_keys_unique(dict_set(ps, k, v)),
        value_wf(ValueView::Dict(dict_set(ps, k, v)), flen),
{
    broadcast use lemma_veq_refl;

    if exists|i: int| 0 <= i < ps.len() && key_matches(k, #[trigger] ps[i].0) {
        let i = choose|i: int|
            0 <= i < ps.len() && key_matches(k, #[trigger] ps[i].0) && forall|j: int|
                0 <= j < i ==> !key_matches(k, #[trigger] ps[j].0);
        assert(exists|i: int|
            0 <= i < ps.len() && key_matches(k, #[trigger] ps[i].0) && forall|j: int|
                0 <= j < i ==> !key_matches(k, #[trigger] ps[j].0)) by {
            let w = choose|i: int| 0 <= i < ps.len() && key_matches(k, #[trigger] ps[i].0);
            lemma_first_key_match(ps, k, w);
        }
        lemma_dict_first_match(ps, k, v, i);
        let qs = dict_set(ps, k, v);
        assert(qs =~= ps.update(i, (ps[i].0, v)));
        lemma_dict_first_match(qs, k, v, i);
        assert(dict_get(qs, k) == Some(qs[i].1));
    } else {
        assert(forall|j: int| 0 <= j < ps.len() ==> !key_matches(k, #[trigger] ps[j].0));
        lemma_dict_no_match(ps, k, v);
        let qs = dict_set(ps, k, v);
        assert(qs =~= ps.push((k, v)));
        lemma_dict_first_match(qs, k, v, ps.len() as int);
        assert(dict_get(qs, k) == Some(qs[ps.len() as int].1));
    }
}

/// If some key matches, some first key matches.
proof fn lemma_first_key_match(ps: Seq<(ValueView, ValueView)>, k: ValueView, w: int)
    requires
        0 <= w < ps.len(),
        key_matches(k, ps[w].0),
    ensures
        exists|i: int|
            0 <= i < ps.len() && key_matches(k, #[trigger] ps[i].0) && forall|j: int|
                0 <= j < i ==> !key_matches(k, #[trigger] ps[j].0),
    decreases w,
{
    if forall|j: int| 0 <= j < w ==> !key_matches(k, #[trigger] ps[j].0) {
        assert(0 <= w < ps.len() && key_matches(k, ps[w].0) && forall|j: int|
            0 <= j < w ==> !key_matches(k, #[trigger] ps[j].0));
    } else {
        let w2 = choose|j: int| 0 <= j < w && key_matches(k, #[trigger] ps[j].0);
        lemma_first_key_match(ps, k, w2);
    }
}

/// Find the first entry whose key matches `k`.
pub fn dict_find(ps: &Vec<(Value, Value)>, k: &Value) -> (r: Option<usize>)
    ensures
        match r {
            Some(i) => {
                &&& i < ps@.len()
                &&& key_matches(k@, pair_seq_view(ps@)[i as int].0)
                &&& forall|j: int|
                    0 <= j < i ==> !key_matches(k@, #[trigger] pair_seq_view(ps@)[j].0)
            },
            None => forall|j: int|
                0 <= j < ps@.len() ==> !key_matches(k@, #[trigger] pair_seq_view(ps@)[j].0),
        },
{
    proof {
        broadcast use lemma_pair_seq_view;

    }
    let n = ps.len();
    let mut j: usize = 0;
    while j < n
        invariant
            n == ps@.len(),
            j <= n,
            pair_seq_view(ps@).len() == n,
            forall|m: int| 0 <= m < j ==> !key_matches(k@, #[trigger] pair_seq_view(ps@)[m].0),
        decreases n - j,
    {
        proof {
            broadcast use lemma_pair_seq_view;

        }
        let hit = value_eq(k, &ps[j].0) || value_eq(&ps[j].0, k);
        if hit {
            return Some(j);
        }
        j += 1;
    }
    None
}

/// Bind `k` to `v` in the association list, replacing the value of the
/// first matching key or appending a new entry.
pub fn dict_insert(ps: &mut Vec<(Value, Value)>, k: Value, v: Value)
    ensures
        pair_seq_view(final(ps)@) =~= dict_set(pair_seq_view(old(ps)@), k@, v@),
{
    proof {
        broadcast use lemma_pair_seq_view;

    }
    let found = dict_find(ps, &k);
    match found {
        Some(i) => {
            proof {
                lemma_dict_first_match(pair_seq_view(ps@), k@, v@, i as int);
            }
            let key_copy = value_clone(&ps[i].0);
            let ghost before = pair_seq_view(ps@);
            ps.set(i, (key_copy, v));
            proof {
                broadcast use lemma_pair_seq_view;

                assert forall|m: int| 0 <= m < ps@.len() implies pair_seq_view(ps@)[m]
                    == before.update(i as int, (before[i as int].0, v@))[m] by {
                    assert(pair_seq_view(ps@)[m] == (ps@[m].0@, ps@[m].1@));
                    if m != i as int {
                        assert(ps@[m] == old(ps)@[m]);
                        assert(before[m] == (old(ps)@[m].0@, old(ps)@[m].1@));
                    }
                }
                assert(pair_seq_view(ps@) =~= before.update(i as int, (before[i as int].0, v@)));
            }
        },
        None => {
            proof {
                lemma_dict_no_match(pair_seq_view(ps@), k@, v@);
            }
            let ghost before = pair_seq_view(ps@);
            let ghost kv = k@;
            let ghost vv = v@;
            ps.push((k, v));
            proof {
                broadcast use lemma_pair_seq_view;

                assert forall|m: int| 0 <= m < ps@.len() implies pair_seq_view(ps@)[m]
                    == before.push((kv, vv))[m] by {
                    assert(pair_seq_view(ps@)[m] == (ps@[m].0@, ps@[m].1@));
                    if m < ps@.len() - 1 {
                        assert(ps@[m] == old(ps)@[m]);
                        assert(before[m] == (old(ps)@[m].0@, old(ps)@[m].1@));
                    }
                }
                assert(pair_seq_view(ps@) =~= before.push((kv, vv)));
            }
        },
    }
}

} // verus!

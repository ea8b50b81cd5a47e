//! Route matching for the web-serving layer: a registered route path is
//! matched against a request path segment by segment, with `:name`
//! segments captured as parameters.

use vstd::prelude::*;
use vstd::string::StrSliceExecFns;

use crate::text::{chars_to_string, str_eq};

verus! {

/// Whether a route segment captures a parameter.
pub open spec fn seg_is_param(s: Seq<char>) -> bool {
    s.len() > 0 && s[0] == ':'
}

/// How many parameters a route's segments capture.
pub open spec fn count_params(route: Seq<String>) -> int
    decreases route.len(),
{
    if route.len() == 0 {
        0
    } else {
        count_params(route.drop_last()) + if seg_is_param(route.last()@) {
            1int
        } else {
            0int
        }
    }
}

/// The segments of a path: the maximal non-empty runs between `/`
/// separators, after the segments already in `piece`.
pub open spec fn split_acc(s: Seq<char>, piece: Seq<char>) -> Seq<Seq<char>>
    decreases s.len(),
{
    if s.len() == 0 {
        if piece.len() > 0 {
            seq![piece]
        } else {
            Seq::empty()
        }
    } else if s[0] == '/' {
        (if piece.len() > 0 {
            seq![piece]
        } else {
            Seq::empty()
        }) + split_acc(s.skip(1), Seq::empty())
    } else {
        split_acc(s.skip(1), piece.push(s[0]))
    }
}

/// The segments of a path: maximal non-empty runs of characters between
/// `/` separators, in order.
pub open spec fn split_spec(s: Seq<char>) -> Seq<Seq<char>> {
    split_acc(s, Seq::empty())
}

/// Split a path on `/`, dropping empty segments.
pub fn split_segments(s: &str) -> (r: Vec<String>)
    ensures
        r@.len() == split_spec(s@).len(),
        forall|i: int| 0 <= i < r@.len() ==> (#[trigger] r@[i])@ == split_spec(s@)[i],
        forall|i: int| 0 <= i < r@.len() ==> (#[trigger] r@[i])@.len() > 0,
{
    let n = s.unicode_len();
    let mut out: Vec<String> = Vec::new();
    let mut piece: Vec<char> = Vec::new();
    let mut i: usize = 0;
    proof {
        assert(s@.skip(0) =~= s@);
        assert(Seq::new(out@.len(), |k: int| out@[k]@) + split_acc(s@, Seq::empty()) =~= split_acc(
            s@,
            Seq::empty(),
        ));
    }
    while i < n
        invariant
            n == s@.len(),
            i <= n,
            forall|k: int| 0 <= k < out@.len() ==> (#[trigger] out@[k])@.len() > 0,
            split_spec(s@) == Seq::new(out@.len(), |k: int| out@[k]@) + split_acc(
                s@.skip(i as int),
                piece@,
            ),
        decreases n - i,
    {
        let c = s.get_char(i);
        proof {
            assert(s@.skip(i as int)[0] == s@[i as int]);
            assert(s@.skip(i as int).skip(1) =~= s@.skip(i + 1));
        }
        if c == '/' {
            if piece.len() > 0 {
                let ghost done = Seq::new(out@.len(), |k: int| out@[k]@);
                let ghost piece_view = piece@;
                out.push(chars_to_string(&piece));
                piece = Vec::new();
                proof {
                    assert(Seq::new(out@.len(), |k: int| out@[k]@) =~= done.push(piece_view));
                    assert(done.push(piece_view) =~= done + seq![piece_view]);
                    assert(split_acc(s@.skip(i as int), piece_view) =~= seq![piece_view]
                        + split_acc(s@.skip(i + 1), Seq::empty()));
                    assert((done + seq![piece_view]) + split_acc(s@.skip(i + 1), Seq::empty())
                        =~= done + (seq![piece_view] + split_acc(s@.skip(i + 1), Seq::empty())));
                    assert(piece@ =~= Seq::<char>::empty());
                    assert(split_spec(s@) == Seq::new(out@.len(), |k: int| out@[k]@) + split_acc(
                        s@.skip(i + 1),
                        piece@,
                    ));
                }
            } else {
                proof {
                    assert(split_acc(s@.skip(i as int), piece@) =~= split_acc(
                        s@.skip(i + 1),
                        Seq::empty(),
                    ));
                    assert(piece@ =~= Seq::<char>::empty());
                    assert(split_spec(s@) == Seq::new(out@.len(), |k: int| out@[k]@) + split_acc(
                        s@.skip(i + 1),
                        piece@,
                    ));
                }
            }
        } else {
            let ghost piece_view = piece@;
            piece.push(c);
            proof {
                assert(piece@ =~= piece_view.push(s@[i as int]));
                assert(split_acc(s@.skip(i as int), piece_view) == split_acc(
                    s@.skip(i + 1),
                    piece_view.push(s@[i as int]),
                ));
                assert(split_spec(s@) == Seq::new(out@.len(), |k: int| out@[k]@) + split_acc(
                    s@.skip(i + 1),
                    piece@,
                ));
            }
        }
        i += 1;
    }
    proof {
        assert(s@.skip(n as int) =~= Seq::<char>::empty());
        assert(split_acc(s@.skip(n as int), piece@) == split_acc(Seq::<char>::empty(), piece@));
    }
    if piece.len() > 0 {
        let ghost done = Seq::new(out@.len(), |k: int| out@[k]@);
        let ghost piece_view = piece@;
        out.push(chars_to_string(&piece));
        proof {
            assert(Seq::new(out@.len(), |k: int| out@[k]@) =~= done.push(piece_view));
            assert(done.push(piece_view) =~= done + seq![piece_view]);
            assert(split_spec(s@) =~= Seq::new(out@.len(), |k: int| out@[k]@));
        }
    } else {
        proof {
            assert(split_spec(s@) =~= Seq::new(out@.len(), |k: int| out@[k]@));
        }
    }
    proof {
        assert forall|i: int| 0 <= i < out@.len() implies (#[trigger] out@[i])@ == split_spec(
            s@,
        )[i] by {
            assert(split_spec(s@)[i] == Seq::new(out@.len(), |k: int| out@[k]@)[i]);
        }
    }
    out
}

/// Match pre-split route segments against request segments: every
/// `:name` segment captures the request's segment under `name`, every
/// other segment must be identical, and the segment counts must agree.
pub fn match_segments(route: &Vec<String>, req: &Vec<String>) -> (r: Option<Vec<(String, String)>>)
    ensures
        match r {
            Some(ps) => {
                &&& route@.len() == req@.len()
                &&& forall|i: int|
                    0 <= i < route@.len() ==> seg_is_param((#[trigger] route@[i])@) || route@[i]@
                        == req@[i]@
                &&& ps@.len() == count_params(route@)
                &&& forall|i: int|
                    0 <= i < route@.len() && seg_is_param((#[trigger] route@[i])@) ==> {
                        let k = count_params(route@.take(i));
                        &&& 0 <= k < ps@.len()
                        &&& ps@[k].0@ == route@[i]@.skip(1)
                        &&& ps@[k].1@ == req@[i]@
                    }
            },
            None => route@.len() != req@.len() || exists|i: int|
                0 <= i < route@.len() && !seg_is_param((#[trigger] route@[i])@) && route@[i]@
                    != req@[i]@,
        },
{
    if route.len() != req.len() {
        return None;
    }
    let n = route.len();
    let mut params: Vec<(String, String)> = Vec::new();
    let mut i: usize = 0;
    proof {
        assert(count_params(route@.take(0)) == 0);
    }
    while i < n
        invariant
            n == route@.len() == req@.len(),
            i <= n,
            forall|k: int|
                0 <= k < i ==> seg_is_param((#[trigger] route@[k])@) || route@[k]@ == req@[k]@,
            params@.len() == count_params(route@.take(i as int)),
            forall|k: int|
                0 <= k < i && seg_is_param((#[trigger] route@[k])@) ==> {
                    let m = count_params(route@.take(k));
                    &&& 0 <= m < params@.len()
                    &&& params@[m].0@ == route@[k]@.skip(1)
                    &&& params@[m].1@ == req@[k]@
                },
            forall|k1: int, k2: int|
                0 <= k1 <= k2 <= i ==> count_params(route@.take(k1)) <= count_params(
                    route@.take(k2),
                ),
        decreases n - i,
    {
        let seg = &route[i];
        let sn = seg.as_str().unicode_len();
        let is_param = sn > 0 && seg.as_str().get_char(0) == ':';
        proof {
            assert(route@.take(i + 1).drop_last() =~= route@.take(i as int));
            assert(route@.take(i + 1).last() == route@[i as int]);
        }
        if is_param {
            let name = seg.as_str().substring_char(1, sn);
            let pair = (String::from_str(name), req[i].clone());
            let ghost before = params@;
            params.push(pair);
            proof {
                assert(params@[before.len() as int].0@ == route@[i as int]@.skip(1));
                assert(params@[before.len() as int].1@ == req@[i as int]@);
                assert forall|k: int|
                    0 <= k < i + 1 && seg_is_param((#[trigger] route@[k])@) implies {
                    let m = count_params(route@.take(k));
                    &&& 0 <= m < params@.len()
                    &&& params@[m].0@ == route@[k]@.skip(1)
                    &&& params@[m].1@ == req@[k]@
                } by {
                    if k < i as int {
                        assert(params@[count_params(route@.take(k))] == before[count_params(
                            route@.take(k),
                        )]);
                    } else {
                        assert(count_params(route@.take(k)) == before.len());
                    }
                }
            }
        } else {
            if !str_eq(seg.as_str(), req[i].as_str()) {
                return None;
            }
            proof {
                assert forall|k: int|
                    0 <= k < i + 1 && seg_is_param((#[trigger] route@[k])@) implies {
                    let m = count_params(route@.take(k));
                    &&& 0 <= m < params@.len()
                    &&& params@[m].0@ == route@[k]@.skip(1)
                    &&& params@[m].1@ == req@[k]@
                } by {}
            }
        }
        proof {
            assert forall|k1: int, k2: int| 0 <= k1 <= k2 <= i + 1 implies count_params(
                route@.take(k1),
            ) <= count_params(route@.take(k2)) by {
                if k2 == i + 1 && k1 <= i {
                    assert(route@.take(i + 1).drop_last() =~= route@.take(i as int));
                }
            }
        }
        i += 1;
    }
    proof {
        assert(route@.take(n as int) =~= route@);
    }
    Some(params)
}

/// Match a registered route path against a request path: segments split
/// on `/`, `:name` segments captured as parameters, every other segment
/// required to be identical, segment counts required to agree.
pub fn match_route(route_path: &str, request_url: &str) -> (r: Option<Vec<(String, String)>>)
    ensures
        match r {
            Some(ps) => {
                &&& split_spec(route_path@).len() == split_spec(request_url@).len()
                &&& forall|i: int|
                    0 <= i < split_spec(route_path@).len() ==> seg_is_param(
                        #[trigger] split_spec(route_path@)[i],
                    ) || split_spec(route_path@)[i] == split_spec(request_url@)[i]
            },
            None => split_spec(route_path@).len() != split_spec(request_url@).len() || exists|
                i: int,
            |
                0 <= i < split_spec(route_path@).len() && !seg_is_param(
                    #[trigger] split_spec(route_path@)[i],
                ) && split_spec(route_path@)[i] != split_spec(request_url@)[i],
        },
{
    let rs = split_segments(route_path);
    let qs = split_segments(request_url);
    let r = match_segments(&rs, &qs);
    proof {
        match &r {
            Some(ps) => {
                assert forall|i: int| 0 <= i < split_spec(route_path@).len() implies seg_is_param(
                    #[trigger] split_spec(route_path@)[i],
                ) || split_spec(route_path@)[i] == split_spec(request_url@)[i] by {
                    assert(rs@[i]@ == split_spec(route_path@)[i]);
                    assert(qs@[i]@ == split_spec(request_url@)[i]);
                }
            },
            None => {
                if split_spec(route_path@).len() == split_spec(request_url@).len() {
                    let i = choose|i: int|
                        0 <= i < rs@.len() && !seg_is_param((#[trigger] rs@[i])@) && rs@[i]@
                            != qs@[i]@;
                    assert(split_spec(route_path@)[i] == rs@[i]@);
                    assert(split_spec(request_url@)[i] == qs@[i]@);
                    assert(0 <= i < split_spec(route_path@).len() && !seg_is_param(
                        split_spec(route_path@)[i],
                    ) && split_spec(route_path@)[i] != split_spec(request_url@)[i]);
                }
            },
        }
    }
    r
}

} // verus!

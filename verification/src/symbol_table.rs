//! The binding table: a stack of lexical scopes mapping names to values
//! with a reassignability flag.
//!
//! Name resolution searches from the innermost scope outwards, but never
//! past a call floor: a function call opens a fresh scope chained only to
//! the global scope, so functions observe no caller-local bindings.

use vstd::prelude::*;

use crate::value::{value_clone, value_wf, Value, ValueView};

verus! {

/// A binding's content: the current value and whether assignment may
/// replace it.
pub struct Symbol {
    pub value: Value,
    pub is_reassignable: bool,
}

/// The stack of scopes. `scopes[0]` is the global scope. Each entry of
/// `floors` marks the scope index where a function call began: lookups
/// search only from the top scope down to the newest floor, then the
/// global scope.
pub struct SymbolTable {
    pub scopes: Vec<Vec<(String, Symbol)>>,
    pub floors: Vec<usize>,
}

/// What a lookup yields: the value's abstraction and the flag.
pub type Resolved = Option<(ValueView, bool)>;

/// Search one scope, newest binding first.
pub open spec fn frame_lookup(f: Seq<(String, Symbol)>, name: Seq<char>) -> Resolved
    decreases f.len(),
{
    if f.len() == 0 {
        None
    } else if f.last().0@ == name {
        Some((f.last().1.value@, f.last().1.is_reassignable))
    } else {
        frame_lookup(f.drop_last(), name)
    }
}

/// The newest call floor, or 1 when no call is active.
pub open spec fn cur_floor(t: SymbolTable) -> int {
    if t.floors@.len() == 0 {
        1
    } else {
        t.floors@.last() as int
    }
}

/// Search scopes `i`, `i - 1`, ... down to the newest call floor, then the
/// global scope.
pub open spec fn lookup_visible(t: SymbolTable, i: int, name: Seq<char>) -> Resolved
    decreases
            if i >= 0 {
                i
            } else {
                0
            },
{
    if i <= 0 || i < cur_floor(t) {
        frame_lookup(t.scopes@[0]@, name)
    } else {
        match frame_lookup(t.scopes@[i]@, name) {
            Some(s) => Some(s),
            None => lookup_visible(t, i - 1, name),
        }
    }
}

/// Resolve a name against the visible scopes.
pub open spec fn lookup(t: SymbolTable, name: Seq<char>) -> Resolved {
    lookup_visible(t, t.scopes@.len() - 1, name)
}

/// The structural invariant of the table: a global scope exists, floors
/// are strictly increasing, and every floor marks an existing scope.
pub open spec fn table_shape_wf(t: SymbolTable) -> bool {
    &&& t.scopes@.len() >= 1
    &&& forall|k: int| 0 <= k < t.floors@.len() ==> 1 <= #[trigger] t.floors@[k]
    &&& forall|k1: int, k2: int|
        0 <= k1 < k2 < t.floors@.len() ==> #[trigger] t.floors@[k1] < #[trigger] t.floors@[k2]
    &&& t.floors@.len() > 0 ==> t.floors@.last() + 1 <= t.scopes@.len()
}

/// Every value stored anywhere in the table is well-formed for a function
/// registry of length `flen`.
pub open spec fn table_values_wf(t: SymbolTable, flen: nat) -> bool {
    forall|i: int, j: int|
        0 <= i < t.scopes@.len() && 0 <= j < t.scopes@[i]@.len() ==> value_wf(
            (#[trigger] t.scopes@[i]@[j]).1.value@,
            flen,
        )
}

/// Two tables with the same floors and the same scopes at the global index
/// and at every index from the floor up to `i` resolve names identically
/// from `i` downwards.
pub proof fn lemma_lookup_frames_equal(t1: SymbolTable, t2: SymbolTable, i: int, name: Seq<char>)
    requires
        cur_floor(t1) == cur_floor(t2),
        t1.scopes@.len() >= 1,
        t2.scopes@.len() >= 1,
        i < t1.scopes@.len(),
        i < t2.scopes@.len(),
        frame_lookup(t1.scopes@[0]@, name) == frame_lookup(t2.scopes@[0]@, name),
        forall|k: int|
            cur_floor(t1) <= k <= i ==> frame_lookup((#[trigger] t1.scopes@[k])@, name)
                == frame_lookup((#[trigger] t2.scopes@[k])@, name),
    ensures
        lookup_visible(t1, i, name) == lookup_visible(t2, i, name),
    decreases
            if i >= 0 {
                i
            } else {
                0
            },
{
    if i <= 0 || i < cur_floor(t1) {
    } else {
        lemma_lookup_frames_equal(t1, t2, i - 1, name);
    }
}

/// A name found in a scope is found with the same result after the frame
/// grows by one binding of a different name.
pub proof fn lemma_frame_lookup_push(f: Seq<(String, Symbol)>, entry: (String, Symbol), name: Seq<char>)
    ensures
        frame_lookup(f.push(entry), name) == if entry.0@ == name {
            Some((entry.1.value@, entry.1.is_reassignable))
        } else {
            frame_lookup(f, name)
        },
{
    let g = f.push(entry);
    assert(g.last() == entry);
    if entry.0@ != name {
        assert(g.drop_last() =~= f);
    }
}

/// Every value a lookup can yield is well-formed when the table's values
/// are.
pub proof fn lemma_lookup_wf(t: SymbolTable, i: int, name: Seq<char>, flen: nat)
    requires
        table_values_wf(t, flen),
        t.scopes@.len() >= 1,
        i < t.scopes@.len(),
    ensures
        match lookup_visible(t, i, name) {
            Some(p) => value_wf(p.0, flen),
            None => true,
        },
    decreases
            if i >= 0 {
                i
            } else {
                0
            },
{
    if i <= 0 || i < cur_floor(t) {
        lemma_frame_lookup_wf(t, 0, t.scopes@[0]@, name, flen);
    } else {
        lemma_frame_lookup_wf(t, i, t.scopes@[i]@, name, flen);
        lemma_lookup_wf(t, i - 1, name, flen);
    }
}

proof fn lemma_frame_lookup_wf(
    t: SymbolTable,
    i: int,
    f: Seq<(String, Symbol)>,
    name: Seq<char>,
    flen: nat,
)
    requires
        table_values_wf(t, flen),
        0 <= i < t.scopes@.len(),
        f.len() <= t.scopes@[i]@.len(),
        forall|j: int| 0 <= j < f.len() ==> f[j] == t.scopes@[i]@[j],
    ensures
        match frame_lookup(f, name) {
            Some(p) => value_wf(p.0, flen),
            None => true,
        },
    decreases f.len(),
{
    if f.len() > 0 {
        if f.last().0@ == name {
            assert(f.last() == t.scopes@[i]@[f.len() - 1]);
        } else {
            lemma_frame_lookup_wf(t, i, f.drop_last(), name, flen);
        }
    }
}

impl SymbolTable {
    /// A fresh table: one empty global scope, no active call.
    pub fn new() -> (r: SymbolTable)
        ensures
            table_shape_wf(r),
            forall|flen: nat| table_values_wf(r, flen),
            r.scopes@.len() == 1,
            r.scopes@[0]@.len() == 0,
            r.floors@.len() == 0,
            forall|n: Seq<char>| lookup(r, n) is None,
    {
        let mut scopes: Vec<Vec<(String, Symbol)>> = Vec::new();
        scopes.push(Vec::new());
        let r = SymbolTable { scopes, floors: Vec::new() };
        proof {
            assert(forall|n: Seq<char>| lookup(r, n) is None);
        }
        r
    }

    /// The number of scopes on the stack.
    pub fn depth(&self) -> (r: usize)
        ensures
            r == self.scopes@.len(),
    {
        self.scopes.len()
    }

    /// Enter a nested scope (a loop body iteration). Resolution is
    /// unchanged until something is defined in it.
    pub fn enter_scope(&mut self)
        requires
            table_shape_wf(*old(self)),
        ensures
            table_shape_wf(*final(self)),
            final(self).scopes@.len() == old(self).scopes@.len() + 1,
            forall|k: int|
                0 <= k < old(self).scopes@.len() ==> #[trigger] final(self).scopes@[k] == old(
                    self,
                ).scopes@[k],
            final(self).scopes@.last()@.len() == 0,
            final(self).floors@ == old(self).floors@,
            forall|n: Seq<char>| #[trigger] lookup(*final(self), n) == lookup(*old(self), n),
    {
        let ghost old_t = *self;
        self.scopes.push(Vec::new());
        proof {
            assert forall|n: Seq<char>| #[trigger] lookup(*self, n) == lookup(old_t, n) by {
                let i = self.scopes@.len() - 1;
                assert(frame_lookup(self.scopes@[i]@, n) is None);
                if i <= 0 || i < cur_floor(*self) {
                } else {
                    lemma_lookup_frames_equal(*self, old_t, i - 1, n);
                }
            }
        }
    }

    /// Leave the innermost nested scope, discarding its bindings. The
    /// newest call frame itself can only be left through `exit_call`.
    pub fn exit_scope(&mut self)
        requires
            table_shape_wf(*old(self)),
            old(self).scopes@.len() >= 2,
            old(self).floors@.len() > 0 ==> old(self).scopes@.len() - 1 > old(
                self,
            ).floors@.last(),
        ensures
            table_shape_wf(*final(self)),
            final(self).scopes@ == old(self).scopes@.drop_last(),
            final(self).floors@ == old(self).floors@,
    {
        self.scopes.pop();
    }

    /// Open the scope of a function call: a fresh scope whose lookups fall
    /// through only to the global scope.
    pub fn enter_call(&mut self)
        requires
            table_shape_wf(*old(self)),
        ensures
            table_shape_wf(*final(self)),
            final(self).scopes@.len() == old(self).scopes@.len() + 1,
            forall|k: int|
                0 <= k < old(self).scopes@.len() ==> #[trigger] final(self).scopes@[k] == old(
                    self,
                ).scopes@[k],
            final(self).scopes@.last()@.len() == 0,
            final(self).floors@ == old(self).floors@.push(old(self).scopes.len()),
            cur_floor(*final(self)) == old(self).scopes@.len(),
    {
        self.floors.push(self.scopes.len());
        self.scopes.push(Vec::new());
    }

    /// Close the scope of a function call, restoring the caller's view.
    pub fn exit_call(&mut self)
        requires
            table_shape_wf(*old(self)),
            old(self).floors@.len() > 0,
            old(self).scopes@.len() == old(self).floors@.last() + 1,
        ensures
            table_shape_wf(*final(self)),
            final(self).scopes@ == old(self).scopes@.drop_last(),
            final(self).floors@ == old(self).floors@.drop_last(),
    {
        self.scopes.pop();
        self.floors.pop();
    }

    /// Install a binding in the innermost scope, shadowing any binding of
    /// the same name.
    pub fn define(&mut self, name: String, value: Value, is_reassignable: bool)
        requires
            table_shape_wf(*old(self)),
        ensures
            table_shape_wf(*final(self)),
            final(self).scopes@.len() == old(self).scopes@.len(),
            final(self).floors@ == old(self).floors@,
            forall|k: int|
                0 <= k < old(self).scopes@.len() - 1 ==> #[trigger] final(self).scopes@[k] == old(
                    self,
                ).scopes@[k],
            final(self).scopes@.last()@.len() == old(self).scopes@.last()@.len() + 1,
            forall|j: int|
                0 <= j < old(self).scopes@.last()@.len()
                    ==> #[trigger] final(self).scopes@.last()@[j] == old(self).scopes@.last()@[j],
            final(self).scopes@.last()@.last().0@ == name@,
            final(self).scopes@.last()@.last().1.value@ == value@,
            final(self).scopes@.last()@.last().1.is_reassignable == is_reassignable,
            forall|n: Seq<char>|
                #[trigger] lookup(*final(self), n) == if n == name@ {
                    Some((value@, is_reassignable))
                } else {
                    lookup(*old(self), n)
                },
            forall|flen: nat|
                table_values_wf(*old(self), flen) && value_wf(value@, flen)
                    ==> #[trigger] table_values_wf(*final(self), flen),
    {
        let ghost old_t = *self;
        let ghost vv = value@;
        let ghost namev = name@;
        let ghost re = is_reassignable;
        let top = self.scopes.len() - 1;
        let ghost old_frame = self.scopes@[top as int]@;
        let entry = (name, Symbol { value, is_reassignable });
        let ghost entry_g = entry;
        let frame = &mut self.scopes[top];
        frame.push(entry);
        proof {
            assert(self.scopes@[top as int]@ =~= old_frame.push(entry_g));
            assert forall|n: Seq<char>| #[trigger] lookup(*self, n) == if n == namev {
                Some((vv, re))
            } else {
                lookup(old_t, n)
            } by {
                lemma_frame_lookup_push(old_frame, entry_g, n);
                let i = self.scopes@.len() - 1;
                if i <= 0 || i < cur_floor(*self) {
                } else {
                    if frame_lookup(self.scopes@[i]@, n) is None {
                        lemma_lookup_frames_equal(*self, old_t, i - 1, n);
                    }
                    if frame_lookup(old_t.scopes@[i]@, n) is None {
                        lemma_lookup_frames_equal(*self, old_t, i - 1, n);
                    }
                }
            }
            assert forall|flen: nat|
                table_values_wf(old_t, flen) && value_wf(vv, flen) implies #[trigger] table_values_wf(
                *self,
                flen,
            ) by {
                assert forall|i: int, j: int|
                    0 <= i < self.scopes@.len() && 0 <= j < self.scopes@[i]@.len() implies value_wf(
                    (#[trigger] self.scopes@[i]@[j]).1.value@,
                    flen,
                ) by {
                    if i == top as int && j == self.scopes@[i]@.len() - 1 {
                    } else {
                        assert(self.scopes@[i]@[j] == old_t.scopes@[i]@[j]);
                    }
                }
            }
        }
    }

    /// Resolve a name, returning a copy of its binding.
    pub fn get(&self, name: &String) -> (r: Option<Symbol>)
        requires
            table_shape_wf(*self),
        ensures
            match r {
                Some(s) => lookup(*self, name@) == Some((s.value@, s.is_reassignable)),
                None => lookup(*self, name@) is None,
            },
    {
        let floor: usize = if self.floors.len() == 0 {
            1
        } else {
            self.floors[self.floors.len() - 1]
        };
        let mut fi: usize = self.scopes.len();
        while fi > floor
            invariant
                table_shape_wf(*self),
                floor == cur_floor(*self),
                floor >= 1,
                fi <= self.scopes@.len(),
                lookup(*self, name@) == lookup_visible(*self, fi - 1, name@),
            decreases fi,
        {
            fi = fi - 1;
            let frame = &self.scopes[fi];
            let found = Self::frame_find(frame, name);
            match found {
                Some(j) => {
                    let s = &frame[j];
                    let r = Symbol {
                        value: value_clone(&s.1.value),
                        is_reassignable: s.1.is_reassignable,
                    };
                    return Some(r);
                },
                None => {},
            }
        }
        let frame = &self.scopes[0];
        let found = Self::frame_find(frame, name);
        match found {
            Some(j) => {
                let s = &frame[j];
                let r = Symbol {
                    value: value_clone(&s.1.value),
                    is_reassignable: s.1.is_reassignable,
                };
                Some(r)
            },
            None => None,
        }
    }

    /// Search one scope for the newest binding of `name`.
    fn frame_find(frame: &Vec<(String, Symbol)>, name: &String) -> (r: Option<usize>)
        ensures
            match r {
                Some(j) => {
                    &&& j < frame@.len()
                    &&& frame@[j as int].0@ == name@
                    &&& frame_lookup(frame@, name@) == Some(
                        (frame@[j as int].1.value@, frame@[j as int].1.is_reassignable),
                    )
                    &&& forall|m: int| j < m < frame@.len() ==> (#[trigger] frame@[m]).0@ != name@
                },
                None => frame_lookup(frame@, name@) is None,
            },
    {
        let mut k: usize = frame.len();
        proof {
            assert(frame@.take(frame@.len() as int) =~= frame@);
        }
        while k > 0
            invariant
                k <= frame@.len(),
                frame_lookup(frame@, name@) == frame_lookup(frame@.take(k as int), name@),
                forall|m: int| k <= m < frame@.len() ==> (#[trigger] frame@[m]).0@ != name@,
            decreases k,
        {
            k = k - 1;
            if crate::text::str_eq(frame[k].0.as_str(), name.as_str()) {
                proof {
                    assert(frame@.take(k + 1).last() == frame@[k as int]);
                }
                return Some(k);
            }
            proof {
                assert(frame@.take(k + 1).last() == frame@[k as int]);
                assert(frame@.take(k + 1).drop_last() =~= frame@.take(k as int));
            }
        }
        None
    }
}

} // verus!

verus! {

/// The outcome of an assignment attempt.
pub enum AssignOutcome {
    Assigned,
    NotFound,
    NotReassignable,
}

/// Updating one entry of a scope, keeping its name, rebinds that name and
/// no other.
pub proof fn lemma_frame_lookup_update(
    f: Seq<(String, Symbol)>,
    j: int,
    entry: (String, Symbol),
    name: Seq<char>,
)
    requires
        0 <= j < f.len(),
        f[j].0@ == name,
        entry.0@ == name,
        forall|m: int| j < m < f.len() ==> (#[trigger] f[m]).0@ != name,
    ensures
        frame_lookup(f.update(j, entry), name) == Some(
            (entry.1.value@, entry.1.is_reassignable),
        ),
        forall|n: Seq<char>|
            n != name ==> #[trigger] frame_lookup(f.update(j, entry), n) == frame_lookup(f, n),
    decreases f.len(),
{
    let g = f.update(j, entry);
    if j == f.len() - 1 {
        assert(g.last() == entry);
        assert forall|n: Seq<char>| n != name implies #[trigger] frame_lookup(g, n)
            == frame_lookup(f, n) by {
            assert(g.drop_last() =~= f.drop_last());
        }
    } else {
        assert(g.last() == f.last());
        assert(g.last().0@ != name);
        lemma_frame_lookup_update(f.drop_last(), j, entry, name);
        assert(g.drop_last() =~= f.drop_last().update(j, entry));
        assert forall|n: Seq<char>| n != name implies #[trigger] frame_lookup(g, n)
            == frame_lookup(f, n) by {
            if g.last().0@ == n {
            } else {
                assert(frame_lookup(g.drop_last(), n) == frame_lookup(f.drop_last(), n));
            }
        }
    }
}

impl SymbolTable {
    /// Replace the value of the nearest visible binding of `name`. When
    /// `respect_flag` is set, a non-reassignable binding refuses the
    /// update; otherwise the value is replaced in place (as the built-in
    /// list and dict mutation methods do) and the flag is kept.
    fn update_binding(&mut self, name: &String, value: Value, respect_flag: bool) -> (r:
        AssignOutcome)
        requires
            table_shape_wf(*old(self)),
        ensures
            table_shape_wf(*final(self)),
            final(self).scopes@.len() == old(self).scopes@.len(),
            final(self).floors@ == old(self).floors@,
            lookup(*old(self), name@) is None ==> r is NotFound && *final(self) == *old(self),
            forall|p: (ValueView, bool)|
                lookup(*old(self), name@) == Some(p) && respect_flag && !p.1 ==> r
                    is NotReassignable && *final(self) == *old(self),
            forall|p: (ValueView, bool)|
                lookup(*old(self), name@) == Some(p) && (p.1 || !respect_flag) ==> r is Assigned
                    && forall|n: Seq<char>|
                    #[trigger] lookup(*final(self), n) == if n == name@ {
                        Some((value@, p.1))
                    } else {
                        lookup(*old(self), n)
                    },
            forall|flen: nat|
                table_values_wf(*old(self), flen) && value_wf(value@, flen)
                    ==> #[trigger] table_values_wf(*final(self), flen),
    {
        let ghost old_t = *old(self);
        let floor: usize = if self.floors.len() == 0 {
            1
        } else {
            self.floors[self.floors.len() - 1]
        };
        let mut fi: usize = self.scopes.len();
        while fi > floor
            invariant
                old_t == *old(self),
                *self == old_t,
                table_shape_wf(*self),
                floor == cur_floor(*self),
                floor >= 1,
                fi <= self.scopes@.len(),
                lookup(*self, name@) == lookup_visible(*self, fi - 1, name@),
                forall|m: int|
                    fi <= m < self.scopes@.len() ==> frame_lookup(
                        (#[trigger] self.scopes@[m])@,
                        name@,
                    ) is None,
            decreases fi,
        {
            fi = fi - 1;
            let found = Self::frame_find(&self.scopes[fi], name);
            match found {
                Some(j) => {
                    proof {
                        assert(lookup(*self, name@) == lookup_visible(*self, fi as int, name@));
                        assert(lookup(*self, name@) == Some(
                            (
                                self.scopes@[fi as int]@[j as int].1.value@,
                                self.scopes@[fi as int]@[j as int].1.is_reassignable,
                            ),
                        ));
                    }
                    return self.update_at(name, value, respect_flag, fi, j);
                },
                None => {},
            }
        }
        let found = Self::frame_find(&self.scopes[0], name);
        match found {
            Some(j) => {
                proof {
                    assert(lookup(*self, name@) == frame_lookup(self.scopes@[0]@, name@));
                }
                self.update_at(name, value, respect_flag, 0, j)
            },
            None => {
                proof {
                    assert(lookup(*self, name@) is None);
                }
                AssignOutcome::NotFound
            },
        }
    }

    /// Replace the binding at scope `fi`, entry `j`, which the caller has
    /// resolved `name` to.
    fn update_at(&mut self, name: &String, value: Value, respect_flag: bool, fi: usize, j: usize)
        -> (r: AssignOutcome)
        requires
            table_shape_wf(*old(self)),
            fi < old(self).scopes@.len(),
            j < old(self).scopes@[fi as int]@.len(),
            old(self).scopes@[fi as int]@[j as int].0@ == name@,
            forall|m: int|
                j < m < old(self).scopes@[fi as int]@.len() ==> (#[trigger] old(
                    self,
                ).scopes@[fi as int]@[m]).0@ != name@,
            lookup(*old(self), name@) == Some(
                (
                    old(self).scopes@[fi as int]@[j as int].1.value@,
                    old(self).scopes@[fi as int]@[j as int].1.is_reassignable,
                ),
            ),
            fi == 0 ==> forall|m: int|
                cur_floor(*old(self)) <= m < old(self).scopes@.len() ==> frame_lookup(
                    (#[trigger] old(self).scopes@[m])@,
                    name@,
                ) is None,
            fi > 0 ==> cur_floor(*old(self)) <= fi && forall|m: int|
                fi < m < old(self).scopes@.len() ==> frame_lookup(
                    (#[trigger] old(self).scopes@[m])@,
                    name@,
                ) is None,
        ensures
            table_shape_wf(*final(self)),
            final(self).scopes@.len() == old(self).scopes@.len(),
            final(self).floors@ == old(self).floors@,
            forall|p: (ValueView, bool)|
                lookup(*old(self), name@) == Some(p) && respect_flag && !p.1 ==> r
                    is NotReassignable && *final(self) == *old(self),
            forall|p: (ValueView, bool)|
                lookup(*old(self), name@) == Some(p) && (p.1 || !respect_flag) ==> r is Assigned
                    && forall|n: Seq<char>|
                    #[trigger] lookup(*final(self), n) == if n == name@ {
                        Some((value@, p.1))
                    } else {
                        lookup(*old(self), n)
                    },
            forall|flen: nat|
                table_values_wf(*old(self), flen) && value_wf(value@, flen)
                    ==> #[trigger] table_values_wf(*final(self), flen),
    {
        let ghost old_t = *old(self);
        let flag = self.scopes[fi][j].1.is_reassignable;
        if respect_flag && !flag {
            return AssignOutcome::NotReassignable;
        }
        let name_copy = self.scopes[fi][j].0.clone();
        let ghost vv = value@;
        let entry = (name_copy, Symbol { value, is_reassignable: flag });
        let ghost entry_g = entry;
        let ghost old_frame = self.scopes@[fi as int]@;
        let frame = &mut self.scopes[fi];
        frame.set(j, entry);
        proof {
            assert(self.scopes@[fi as int]@ =~= old_frame.update(j as int, entry_g));
            lemma_frame_lookup_update(old_frame, j as int, entry_g, name@);
            assert forall|n: Seq<char>| #[trigger] lookup(*self, n) == if n == name@ {
                Some((vv, flag))
            } else {
                lookup(old_t, n)
            } by {
                let top = self.scopes@.len() - 1;
                if n == name@ {
                    if fi == 0 {
                        assert forall|m: int| cur_floor(*self) <= m < self.scopes@.len()
                            implies frame_lookup((#[trigger] self.scopes@[m])@, n) is None by {
                            assert(self.scopes@[m] == old_t.scopes@[m]);
                        }
                        lemma_lookup_no_match_above(*self, top, n);
                    } else {
                        assert forall|m: int| fi < m < self.scopes@.len() implies frame_lookup(
                            (#[trigger] self.scopes@[m])@,
                            n,
                        ) is None by {
                            assert(self.scopes@[m] == old_t.scopes@[m]);
                        }
                        lemma_lookup_found_at(*self, top, fi as int, n);
                    }
                } else {
                    assert(frame_lookup(self.scopes@[0]@, n) == frame_lookup(
                        old_t.scopes@[0]@,
                        n,
                    )) by {
                        if fi != 0 {
                            assert(self.scopes@[0] == old_t.scopes@[0]);
                        }
                    }
                    assert forall|k: int| cur_floor(*self) <= k <= top implies frame_lookup(
                        (#[trigger] self.scopes@[k])@,
                        n,
                    ) == frame_lookup(old_t.scopes@[k]@, n) by {
                        if k != fi as int {
                            assert(self.scopes@[k] == old_t.scopes@[k]);
                        }
                    }
                    lemma_lookup_frames_equal(*self, old_t, top, n);
                }
            }
            assert forall|flen: nat|
                table_values_wf(old_t, flen) && value_wf(vv, flen)
                    implies #[trigger] table_values_wf(*self, flen) by {
                assert forall|a: int, b: int|
                    0 <= a < self.scopes@.len() && 0 <= b < self.scopes@[a]@.len()
                    implies value_wf((#[trigger] self.scopes@[a]@[b]).1.value@, flen) by {
                    if a == fi as int && b == j as int {
                    } else {
                        assert(self.scopes@[a]@[b] == old_t.scopes@[a]@[b]);
                    }
                }
            }
        }
        AssignOutcome::Assigned
    }

    /// Assign to the nearest visible binding of `name`, refusing
    /// non-reassignable bindings.
    pub fn assign(&mut self, name: &String, value: Value) -> (r: AssignOutcome)
        requires
            table_shape_wf(*old(self)),
        ensures
            table_shape_wf(*final(self)),
            final(self).scopes@.len() == old(self).scopes@.len(),
            final(self).floors@ == old(self).floors@,
            lookup(*old(self), name@) is None ==> r is NotFound && *final(self) == *old(self),
            forall|p: (ValueView, bool)|
                lookup(*old(self), name@) == Some(p) && !p.1 ==> r is NotReassignable
                    && *final(self) == *old(self),
            forall|p: (ValueView, bool)|
                lookup(*old(self), name@) == Some(p) && p.1 ==> r is Assigned && forall|n: Seq<char>|
                    #[trigger] lookup(*final(self), n) == if n == name@ {
                        Some((value@, true))
                    } else {
                        lookup(*old(self), n)
                    },
            forall|flen: nat|
                table_values_wf(*old(self), flen) && value_wf(value@, flen)
                    ==> #[trigger] table_values_wf(*final(self), flen),
    {
        self.update_binding(name, value, true)
    }

    /// Replace the value of the nearest visible binding of `name` in
    /// place, keeping its reassignability flag: the effect of the built-in
    /// list and dict mutation methods.
    pub fn set_value(&mut self, name: &String, value: Value) -> (r: bool)
        requires
            table_shape_wf(*old(self)),
        ensures
            table_shape_wf(*final(self)),
            final(self).scopes@.len() == old(self).scopes@.len(),
            final(self).floors@ == old(self).floors@,
            lookup(*old(self), name@) is None ==> !r && *final(self) == *old(self),
            forall|p: (ValueView, bool)|
                lookup(*old(self), name@) == Some(p) ==> r && forall|n: Seq<char>|
                    #[trigger] lookup(*final(self), n) == if n == name@ {
                        Some((value@, p.1))
                    } else {
                        lookup(*old(self), n)
                    },
            forall|flen: nat|
                table_values_wf(*old(self), flen) && value_wf(value@, flen)
                    ==> #[trigger] table_values_wf(*final(self), flen),
    {
        let r = self.update_binding(name, value, false);
        matches!(r, AssignOutcome::Assigned)
    }
}

/// When every scope above `fi` misses, resolution from the top reaches the
/// match in scope `fi`.
proof fn lemma_lookup_found_at(t: SymbolTable, i: int, fi: int, name: Seq<char>)
    requires
        table_shape_wf(t),
        cur_floor(t) <= fi <= i < t.scopes@.len(),
        frame_lookup(t.scopes@[fi]@, name) is Some,
        forall|m: int|
            fi < m < t.scopes@.len() ==> frame_lookup((#[trigger] t.scopes@[m])@, name) is None,
    ensures
        lookup_visible(t, i, name) == frame_lookup(t.scopes@[fi]@, name),
    decreases i,
{
    if i > fi {
        lemma_lookup_found_at(t, i - 1, fi, name);
    }
}

/// When every scope at or above the floor misses, resolution from the top
/// falls through to the global scope.
proof fn lemma_lookup_no_match_above(t: SymbolTable, i: int, name: Seq<char>)
    requires
        table_shape_wf(t),
        i < t.scopes@.len(),
        forall|m: int|
            cur_floor(t) <= m < t.scopes@.len() ==> frame_lookup(
                (#[trigger] t.scopes@[m])@,
                name,
            ) is None,
    ensures
        lookup_visible(t, i, name) == frame_lookup(t.scopes@[0]@, name),
    decreases
            if i >= 0 {
                i
            } else {
                0
            },
{
    if i <= 0 || i < cur_floor(t) {
    } else {
        lemma_lookup_no_match_above(t, i - 1, name);
    }
}

} // verus!

verus! {

/// Functions are not closures: a function body resolves names against
/// only the global scope and the call's own fresh scope. Two tables that
/// agree on those two scopes resolve every name identically, whatever
/// caller-local scopes (loop locals, caller temporaries) lie between
/// them.
pub proof fn lemma_function_call_isolation(t1: SymbolTable, t2: SymbolTable, n: Seq<char>)
    requires
        table_shape_wf(t1),
        table_shape_wf(t2),
        t1.floors@.len() > 0,
        t2.floors@.len() > 0,
        cur_floor(t1) == t1.scopes@.len() - 1,
        cur_floor(t2) == t2.scopes@.len() - 1,
        t1.scopes@[0] == t2.scopes@[0],
        t1.scopes@.last() == t2.scopes@.last(),
    ensures
        lookup(t1, n) == lookup(t2, n),
{
    let l1 = t1.scopes@.len() - 1;
    let l2 = t2.scopes@.len() - 1;
    assert(l1 >= 1 && l2 >= 1);
    assert(t1.scopes@[l1] == t2.scopes@[l2]);
    assert(lookup_visible(t1, l1 - 1, n) == frame_lookup(t1.scopes@[0]@, n));
    assert(lookup_visible(t2, l2 - 1, n) == frame_lookup(t2.scopes@[0]@, n));
}

} // verus!

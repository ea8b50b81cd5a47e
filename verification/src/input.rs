//! Coercion of console-input text to the statically declared target type:
//! trimming, integer parsing and boolean parsing, each pinned down
//! exactly.

use vstd::prelude::*;

use crate::ast_clone::type_clone;
use crate::errors::RuntimeError;
use crate::text::chars_to_string;
use crate::types::Type;
use crate::value::{Value, ValueView};

verus! {

/// Input-surrounding whitespace.
pub open spec fn is_ws(c: char) -> bool {
    c == ' ' || c == '\t' || c == '\r' || c == '\n'
}

/// The text without leading whitespace.
pub open spec fn trim_front(s: Seq<char>) -> Seq<char>
    decreases s.len(),
{
    if s.len() > 0 && is_ws(s[0]) {
        trim_front(s.skip(1))
    } else {
        s
    }
}

/// The text without trailing whitespace.
pub open spec fn trim_back(s: Seq<char>) -> Seq<char>
    decreases s.len(),
{
    if s.len() > 0 && is_ws(s.last()) {
        trim_back(s.drop_last())
    } else {
        s
    }
}

/// The text without surrounding whitespace.
pub open spec fn trimmed(s: Seq<char>) -> Seq<char> {
    trim_back(trim_front(s))
}

/// Strip surrounding whitespace.
pub fn trim_chars(cs: &Vec<char>) -> (r: Vec<char>)
    ensures
        r@ == trimmed(cs@),
{
    let n = cs.len();
    let mut start: usize = 0;
    proof {
        assert(cs@.skip(0) =~= cs@);
    }
    while start < n && (cs[start] == ' ' || cs[start] == '\t' || cs[start] == '\r' || cs[start]
        == '\n')
        invariant
            n == cs@.len(),
            start <= n,
            trim_front(cs@) == trim_front(cs@.skip(start as int)),
        decreases n - start,
    {
        proof {
            assert(cs@.skip(start as int)[0] == cs@[start as int]);
            assert(cs@.skip(start as int).skip(1) =~= cs@.skip(start + 1));
        }
        start += 1;
    }
    proof {
        if start < n {
            assert(cs@.skip(start as int)[0] == cs@[start as int]);
        }
        assert(trim_front(cs@) == cs@.skip(start as int));
    }
    let mut end: usize = n;
    proof {
        assert(cs@.skip(start as int).take(n - start) =~= cs@.skip(start as int));
    }
    while end > start && (cs[end - 1] == ' ' || cs[end - 1] == '\t' || cs[end - 1] == '\r' || cs[end
        - 1] == '\n')
        invariant
            n == cs@.len(),
            start <= end <= n,
            trim_front(cs@) == cs@.skip(start as int),
            trim_back(cs@.skip(start as int)) == trim_back(
                cs@.skip(start as int).take(end - start),
            ),
        decreases end,
    {
        proof {
            let seg = cs@.skip(start as int).take(end - start);
            assert(seg.last() == cs@[end - 1]);
            assert(seg.drop_last() =~= cs@.skip(start as int).take(end - 1 - start));
        }
        end -= 1;
    }
    proof {
        let seg = cs@.skip(start as int).take(end - start);
        if end > start {
            assert(seg.last() == cs@[end - 1]);
        }
        assert(trim_back(seg) == seg);
    }
    let mut out: Vec<char> = Vec::new();
    let mut i: usize = start;
    while i < end
        invariant
            n == cs@.len(),
            start <= i <= end <= n,
            out@ =~= cs@.skip(start as int).take(i - start),
        decreases end - i,
    {
        out.push(cs[i]);
        proof {
            assert(cs@.skip(start as int).take(i - start).push(cs@[i as int]) =~= cs@.skip(
                start as int,
            ).take(i + 1 - start));
        }
        i += 1;
    }
    proof {
        assert(out@ =~= trimmed(cs@));
    }
    out
}

/// A decimal digit.
pub open spec fn is_digit(c: char) -> bool {
    '0' <= c && c <= '9'
}

/// Every character is a decimal digit.
pub open spec fn all_digits(s: Seq<char>) -> bool {
    forall|i: int| 0 <= i < s.len() ==> is_digit(#[trigger] s[i])
}

/// The numeric value of a digit string.
pub open spec fn digits_val(s: Seq<char>) -> int
    decreases s.len(),
{
    if s.len() == 0 {
        0
    } else {
        digits_val(s.drop_last()) * 10 + (s.last() as int - 48)
    }
}

/// Whether the text is an optionally-signed decimal integer.
pub open spec fn int_text(s: Seq<char>) -> bool {
    if s.len() == 0 {
        false
    } else if s[0] == '-' {
        s.len() > 1 && all_digits(s.skip(1))
    } else {
        all_digits(s)
    }
}

/// The integer the text denotes.
pub open spec fn int_text_val(s: Seq<char>) -> int
    recommends
        int_text(s),
{
    if s.len() > 0 && s[0] == '-' {
        -digits_val(s.skip(1))
    } else {
        digits_val(s)
    }
}

/// A digit string's value never shrinks as it grows.
proof fn lemma_digits_val_mono(s: Seq<char>, i: int, j: int)
    requires
        all_digits(s),
        0 <= i <= j <= s.len(),
    ensures
        0 <= digits_val(s.take(i)) <= digits_val(s.take(j)),
    decreases j,
{
    if j == 0 {
    } else if i == j {
        lemma_digits_val_mono(s, i - 1, j - 1);
        assert(s.take(j).drop_last() =~= s.take(j - 1));
        assert(s.take(j).last() == s[j - 1]);
    } else {
        lemma_digits_val_mono(s, i, j - 1);
        assert(s.take(j).drop_last() =~= s.take(j - 1));
        assert(s.take(j).last() == s[j - 1]);
    }
}

/// Parse the digits of `cs` from position `from`, accumulating the
/// negated value (so that the most negative Number is reachable).
fn parse_digits_neg(cs: &Vec<char>, from: usize) -> (r: Option<i64>)
    requires
        from < cs@.len(),
    ensures
        match r {
            Some(v) => {
                &&& all_digits(cs@.skip(from as int))
                &&& v == -digits_val(cs@.skip(from as int))
            },
            None => !all_digits(cs@.skip(from as int)) || -digits_val(cs@.skip(from as int))
                < i64::MIN,
        },
{
    let ghost tail = cs@.skip(from as int);
    let n = cs.len();
    let mut acc: i64 = 0;
    let mut i: usize = from;
    while i < n
        invariant
            from <= i <= n,
            n == cs@.len(),
            tail == cs@.skip(from as int),
            all_digits(tail.take(i - from)),
            acc == -digits_val(tail.take(i - from)),
        decreases n - i,
    {
        let c = cs[i];
        if !('0' <= c && c <= '9') {
            proof {
                assert(tail[i - from] == cs@[i as int]);
            }
            return None;
        }
        let d: i64 = ((c as u8) - 48) as i64;
        let next = match acc.checked_mul(10) {
            Some(m) => m.checked_sub(d),
            None => None,
        };
        proof {
            assert(tail.take(i + 1 - from).drop_last() =~= tail.take(i - from));
            assert(tail.take(i + 1 - from).last() == tail[i - from]);
            assert(tail[i - from] == cs@[i as int]);
        }
        match next {
            Some(a) => {
                acc = a;
            },
            None => {
                proof {
                    assert(all_digits(tail.take(i + 1 - from)));
                    assert forall|k: int| 0 <= k < tail.len() implies is_digit(
                        #[trigger] tail[k],
                    ) || !all_digits(tail) by {}
                    if all_digits(tail) {
                        lemma_digits_val_mono(tail, i + 1 - from, tail.len() as int);
                        assert(tail.take(tail.len() as int) =~= tail);
                    }
                }
                return None;
            },
        }
        i += 1;
    }
    proof {
        assert(tail.take(n - from) =~= tail);
    }
    Some(acc)
}

/// Parse an optionally-signed decimal integer.
pub fn parse_i64(cs: &Vec<char>) -> (r: Option<i64>)
    ensures
        match r {
            Some(v) => int_text(cs@) && v == int_text_val(cs@),
            None => !int_text(cs@) || int_text_val(cs@) < i64::MIN || int_text_val(cs@)
                > i64::MAX,
        },
{
    if cs.len() == 0 {
        return None;
    }
    if cs[0] == '-' {
        if cs.len() == 1 {
            return None;
        }
        match parse_digits_neg(cs, 1) {
            Some(neg) => Some(neg),
            None => None,
        }
    } else {
        match parse_digits_neg(cs, 0) {
            Some(neg) => {
                proof {
                    assert(cs@.skip(0) =~= cs@);
                }
                match 0i64.checked_sub(neg) {
                    Some(v) => Some(v),
                    None => None,
                }
            },
            None => {
                proof {
                    assert(cs@.skip(0) =~= cs@);
                }
                None
            },
        }
    }
}

/// Parse `true` or `false`.
pub fn parse_bool(cs: &Vec<char>) -> (r: Option<bool>)
    ensures
        match r {
            Some(b) => if b {
                cs@ == seq!['t', 'r', 'u', 'e']
            } else {
                cs@ == seq!['f', 'a', 'l', 's', 'e']
            },
            None => cs@ != seq!['t', 'r', 'u', 'e'] && cs@ != seq!['f', 'a', 'l', 's', 'e'],
        },
{
    if cs.len() == 4 && cs[0] == 't' && cs[1] == 'r' && cs[2] == 'u' && cs[3] == 'e' {
        proof {
            assert(cs@ =~= seq!['t', 'r', 'u', 'e']);
        }
        Some(true)
    } else if cs.len() == 5 && cs[0] == 'f' && cs[1] == 'a' && cs[2] == 'l' && cs[3] == 's'
        && cs[4] == 'e' {
        proof {
            assert(cs@ =~= seq!['f', 'a', 'l', 's', 'e']);
        }
        Some(false)
    } else {
        proof {
            if cs@ == seq!['t', 'r', 'u', 'e'] {
                assert(cs@.len() == 4 && cs@[0] == 't' && cs@[1] == 'r' && cs@[2] == 'u' && cs@[3]
                    == 'e');
            }
            if cs@ == seq!['f', 'a', 'l', 's', 'e'] {
                assert(cs@.len() == 5 && cs@[0] == 'f' && cs@[1] == 'a' && cs@[2] == 'l' && cs@[3]
                    == 's' && cs@[4] == 'e');
            }
        }
        None
    }
}

/// What coercion of already-trimmed input text to a declared type yields.
pub open spec fn spec_coerce(t: Seq<char>, ty: Type, r: Result<Value, RuntimeError>) -> bool {
    match ty {
        Type::Str => r matches Ok(v) && v@ == ValueView::Str(t),
        Type::Int | Type::Float => if int_text(t) && i64::MIN <= int_text_val(t) <= i64::MAX {
            r matches Ok(v) && v@ == ValueView::Number(int_text_val(t) as i64)
        } else {
            r matches Err(RuntimeError::InputInvalid { expected, text }) && text@ == t
        },
        Type::Bool => if t == seq!['t', 'r', 'u', 'e'] {
            r matches Ok(v) && v@ == ValueView::Boolean(true)
        } else if t == seq!['f', 'a', 'l', 's', 'e'] {
            r matches Ok(v) && v@ == ValueView::Boolean(false)
        } else {
            r matches Err(RuntimeError::InputInvalid { expected, text }) && text@ == t
        },
        _ => r matches Err(RuntimeError::InputUnsupported),
    }
}

/// Coerce trimmed input text to the declared type of an input statement.
pub fn coerce_input(cs: &Vec<char>, ty: &Type) -> (r: Result<Value, RuntimeError>)
    ensures
        spec_coerce(cs@, *ty, r),
{
    match ty {
        Type::Str => Ok(Value::Str(chars_to_string(cs))),
        Type::Int | Type::Float => {
            match parse_i64(cs) {
                Some(v) => Ok(Value::Number(v)),
                None => Err(
                    RuntimeError::InputInvalid {
                        expected: type_clone(ty),
                        text: chars_to_string(cs),
                    },
                ),
            }
        },
        Type::Bool => {
            match parse_bool(cs) {
                Some(b) => Ok(Value::Boolean(b)),
                None => Err(
                    RuntimeError::InputInvalid {
                        expected: type_clone(ty),
                        text: chars_to_string(cs),
                    },
                ),
            }
        },
        _ => Err(RuntimeError::InputUnsupported),
    }
}

} // verus!

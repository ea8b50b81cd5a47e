//! The compute side of module loading: the candidate file paths a module
//! name resolves to, in the order they are tried. Reading the winning
//! file and parsing its text belong to the embedding program and the
//! parser.

use vstd::prelude::*;
use vstd::string::StrSliceExecFns;

use crate::text::{chars_to_string, str_chars};

verus! {

/// The position of the extension dot of the path's final component,
/// scanning leftwards from `i`: a `.` that is neither the component's
/// first character nor before a later `/`; `-1` when there is none.
pub open spec fn ext_dot_from(s: Seq<char>, i: int) -> int
    decreases
            if i >= 0 {
                i
            } else {
                0
            },
{
    if i <= 0 {
        -1
    } else if s[i - 1] == '/' {
        -1
    } else if s[i - 1] == '.' && i - 1 > 0 && s[i - 2] != '/' {
        i - 1
    } else {
        ext_dot_from(s, i - 1)
    }
}

/// Where the path's stem ends: at the extension dot when one exists,
/// else at the end.
pub open spec fn stem_end(s: Seq<char>) -> int {
    if ext_dot_from(s, s.len() as int) >= 0 {
        ext_dot_from(s, s.len() as int)
    } else {
        s.len() as int
    }
}

/// Find where the path's stem ends.
fn find_stem_end(cs: &Vec<char>) -> (r: usize)
    ensures
        r == stem_end(cs@),
        r <= cs@.len(),
{
    let n = cs.len();
    let mut i: usize = n;
    while i > 0
        invariant
            i <= n,
            n == cs@.len(),
            ext_dot_from(cs@, n as int) == ext_dot_from(cs@, i as int),
        decreases i,
    {
        if cs[i - 1] == '/' {
            return n;
        }
        if cs[i - 1] == '.' && i - 1 > 0 && cs[i - 2] != '/' {
            return i - 1;
        }
        i = i - 1;
    }
    n
}

/// Whether the text ends with the given suffix.
pub open spec fn ends_with(s: Seq<char>, suffix: Seq<char>) -> bool {
    suffix.len() <= s.len() && s.skip(s.len() - suffix.len()) == suffix
}

/// Decide whether the text ends with the given suffix.
fn ends_with_exec(s: &str, suffix: &str) -> (r: bool)
    ensures
        r == ends_with(s@, suffix@),
{
    let nf = suffix.unicode_len();
    let ns = s.unicode_len();
    if nf > ns {
        return false;
    }
    let base = ns - nf;
    let mut i: usize = 0;
    while i < nf
        invariant
            nf == suffix@.len(),
            ns == s@.len(),
            nf <= ns,
            base == ns - nf,
            i <= nf,
            forall|k: int| 0 <= k < i ==> s@[base + k] == suffix@[k],
        decreases nf - i,
    {
        if s.get_char(base + i) != suffix.get_char(i) {
            proof {
                assert(s@.skip(base as int)[i as int] == s@[base + i]);
            }
            return false;
        }
        i += 1;
    }
    proof {
        assert(s@.skip(base as int) =~= suffix@);
    }
    true
}

/// The file paths a module name resolves to, tried in order: inside the
/// packages directory as a package with a `main.snask`, as a single
/// `.snask` file there, and finally as a plain relative path.
pub fn module_candidate_paths(packages_dir: Option<&String>, path_str: &str) -> (r: Vec<String>)
    ensures
        match packages_dir {
            Some(dir) => {
                &&& r@.len() == 3
                &&& r@[0]@ == dir@ + "/"@ + path_str@ + "/main.snask"@
                &&& (ends_with(path_str@, ".snask"@) ==> r@[1]@ == dir@ + "/"@ + path_str@)
                &&& (!ends_with(path_str@, ".snask"@) ==> r@[1]@ == dir@ + "/"@ + path_str@.take(
                    stem_end(path_str@),
                ) + ".snask"@)
                &&& r@[2]@ == path_str@
            },
            None => r@.len() == 1 && r@[0]@ == path_str@,
        },
{
    let mut out: Vec<String> = Vec::new();
    match packages_dir {
        Some(dir) => {
            let mut first = String::from_str(dir.as_str());
            first.append("/");
            first.append(path_str);
            first.append("/main.snask");
            out.push(first);
            let mut second = String::from_str(dir.as_str());
            second.append("/");
            if ends_with_exec(path_str, ".snask") {
                second.append(path_str);
            } else {
                let cs = str_chars(path_str);
                let cut = find_stem_end(&cs);
                let mut stem_chars: Vec<char> = Vec::new();
                let mut k: usize = 0;
                while k < cut
                    invariant
                        cut <= cs@.len(),
                        k <= cut,
                        stem_chars@ =~= cs@.take(cut as int).take(k as int),
                    decreases cut - k,
                {
                    stem_chars.push(cs[k]);
                    proof {
                        assert(cs@.take(cut as int).take(k as int).push(cs@[k as int])
                            =~= cs@.take(cut as int).take(k + 1));
                    }
                    k += 1;
                }
                proof {
                    assert(stem_chars@ =~= cs@.take(cut as int));
                }
                let stem = chars_to_string(&stem_chars);
                second.append(stem.as_str());
                second.append(".snask");
            }
            out.push(second);
            out.push(String::from_str(path_str));
        },
        None => {
            out.push(String::from_str(path_str));
        },
    }
    out
}

} // verus!

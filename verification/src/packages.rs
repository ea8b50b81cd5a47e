//! The decision logic of the package installer: which kind of source an
//! installation target names, and where a registry module is downloaded
//! from. The downloading, cloning and file writing live with the
//! embedding program.

use vstd::prelude::*;
use vstd::string::StrSliceExecFns;

verus! {

/// Whether the text parses as an absolute URL, as the outside URL parser
/// decides it: a function of the text alone.
pub uninterp spec fn is_valid_url(s: Seq<char>) -> bool;

/// Relies on url::Url::parse: whether the text is a parseable absolute
/// URL, a deterministic function of the text.
#[verifier::external_body]
fn url_parses(s: &str) -> (r: bool)
    ensures
        r == is_valid_url(s@),
{
    url::Url::parse(s).is_ok()
}

/// Where an installation target comes from.
pub enum InstallSource {
    /// A git repository to clone.
    GitRepository,
    /// A named module of the package registry.
    RegistryPackage,
}

/// Whether `prefix` starts the text.
pub open spec fn starts_with(s: Seq<char>, prefix: Seq<char>) -> bool {
    prefix.len() <= s.len() && s.take(prefix.len() as int) == prefix
}

/// Decide whether the text starts with the given prefix.
fn starts_with_exec(s: &str, prefix: &str) -> (r: bool)
    ensures
        r == starts_with(s@, prefix@),
{
    let np = prefix.unicode_len();
    let ns = s.unicode_len();
    if np > ns {
        return false;
    }
    let mut i: usize = 0;
    while i < np
        invariant
            np == prefix@.len(),
            ns == s@.len(),
            np <= ns,
            i <= np,
            forall|k: int| 0 <= k < i ==> s@[k] == prefix@[k],
        decreases np - i,
    {
        if s.get_char(i) != prefix.get_char(i) {
            proof {
                assert(s@.take(np as int)[i as int] == s@[i as int]);
            }
            return false;
        }
        i += 1;
    }
    proof {
        assert(s@.take(np as int) =~= prefix@);
    }
    true
}

/// Classify an installation target: a parseable URL that starts with
/// `http` or `git` names a repository to clone; anything else names a
/// registry package.
pub fn classify_install_target(name_or_url: &str) -> (r: InstallSource)
    ensures
        r is GitRepository <==> is_valid_url(name_or_url@) && (starts_with(
            name_or_url@,
            "http"@,
        ) || starts_with(name_or_url@, "git"@)),
{
    if url_parses(name_or_url) && (starts_with_exec(name_or_url, "http") || starts_with_exec(
        name_or_url,
        "git",
    )) {
        InstallSource::GitRepository
    } else {
        InstallSource::RegistryPackage
    }
}

/// The registry location a named module is downloaded from.
pub fn registry_module_url(base: &str, name: &str) -> (r: String)
    ensures
        r@ == base@ + name@ + ".rs"@,
{
    let mut out = String::from_str(base);
    out.append(name);
    out.append(".rs");
    out
}

} // verus!

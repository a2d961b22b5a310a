//! Glob matching of names, done by the `glob-match` crate.
use vstd::prelude::*;

verus! {

/// Whether `glob_match::glob_match(glob, path)` holds: the glob pattern
/// (wildcards, character classes, braces, negation) matches the whole path.
pub uninterp spec fn spec_glob_match(glob: Seq<char>, path: Seq<char>) -> bool;

/// `glob_match::glob_match`: whether the pattern `glob` matches `path`. Its
/// result is a function of the two strings alone; nothing more about which
/// strings match is claimed here.
#[verifier::external_body]
pub(crate) fn glob_match(glob: &str, path: &str) -> (b: bool)
    ensures
        b == spec_glob_match(glob@, path@),
{
    glob_match::glob_match(glob, path)
}

} // verus!

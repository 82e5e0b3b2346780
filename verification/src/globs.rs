//! Shell-style glob matching, done by the `glob` crate.

use vstd::prelude::*;
use crate::text::{replace_char, replaced};

verus! {

/// What the `glob` crate answers for a pattern and a path, both as texts: `None` where
/// `glob::Pattern::new` refuses the pattern, else whether `Pattern::matches_path` accepts the
/// path. The crate tells separators apart with `std::path::is_separator`, so the name stands
/// for the answer on the platform that the library is built for.
pub uninterp spec fn glob_match(pattern: Seq<char>, path: Seq<char>) -> Option<bool>;

/// Compiles `pattern` and matches `path` against it.
///
/// Trusted: `glob::Pattern::new` parses the characters of the pattern, and
/// `Pattern::matches_path`, with the crate's default options, walks the characters of the path;
/// neither reads anything else, so the answer is the one that `glob_match` names.
#[verifier::external_body]
pub(crate) fn glob_matches(pattern: &str, path: &str) -> (r: Option<bool>)
    ensures
        r == glob_match(pattern@, path@),
{
    match glob::Pattern::new(pattern) {
        Ok(compiled) => Some(compiled.matches_path(std::path::Path::new(path))),
        Err(_) => None,
    }
}

/// Whether `pattern` matches `path` in one of two forms: the pattern with the platform's
/// separator in place of `/` against the path as it is, or the pattern as it is against the
/// path with `/` in place of `\`. A pattern that does not compile matches nothing.
pub open spec fn glob_hit(pattern: Seq<char>, path: Seq<char>, separator: char) -> bool {
    glob_match(replaced(pattern, '/', separator), path) == Some(true) || glob_match(
        pattern,
        replaced(path, '\\', '/'),
    ) == Some(true)
}

/// Whether one of `patterns` matches `path`, in either form.
pub open spec fn matches_any(patterns: Seq<Seq<char>>, path: Seq<char>, separator: char) -> bool {
    exists|i: int| 0 <= i < patterns.len() && #[trigger] glob_hit(patterns[i], path, separator)
}

/// Whether `pattern` matches `path`, tried in the platform's form and in the forward-slash
/// form, so that a pattern written on one platform works on another.
pub fn match_glob(pattern: &str, path: &str, separator: char) -> (r: bool)
    ensures
        r == glob_hit(pattern@, path@, separator),
{
    let native = replace_char(pattern, '/', separator);
    match glob_matches(native.as_str(), path) {
        Some(true) => {
            return true;
        },
        _ => {},
    }
    let forward = replace_char(path, '\\', '/');
    match glob_matches(pattern, forward.as_str()) {
        Some(true) => true,
        _ => false,
    }
}

/// Whether one of `patterns` matches `path`.
pub fn match_any_glob(patterns: &Vec<String>, path: &str, separator: char) -> (r: bool)
    ensures
        r == matches_any(patterns.deep_view(), path@, separator),
{
    let mut i: usize = 0;
    while i < patterns.len()
        invariant
            i <= patterns.len(),
            forall|j: int|
                0 <= j < i ==> !#[trigger] glob_hit(patterns.deep_view()[j], path@, separator),
        decreases patterns.len() - i,
    {
        if match_glob(patterns[i].as_str(), path, separator) {
            assert(glob_hit(patterns.deep_view()[i as int], path@, separator));
            return true;
        }
        i += 1;
    }
    false
}

} // verus!

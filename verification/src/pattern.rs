//! Glob patterns, compiled and matched by the `glob` crate.
use vstd::prelude::*;

use std::path::Path;

use crate::text::texts;

verus! {

/// Where and why a glob pattern is malformed, if it is.
pub uninterp spec fn glob_fault(pattern: Seq<char>) -> Option<(usize, Seq<char>)>;

/// A well-formed glob pattern matches a path.
pub uninterp spec fn glob_matches(pattern: Seq<char>, path: Seq<char>) -> bool;

/// The fault of a malformed pattern.
#[derive(Debug)]
pub struct PatternFault {
    pub position: usize,
    pub message: String,
}

/// `glob::Pattern::new`: it succeeds, or gives the fault, as the pattern's text alone decides.
#[verifier::external_body]
fn compile_pattern(pattern: &str) -> (r: Result<(), PatternFault>)
    ensures
        match r {
            Ok(_) => glob_fault(pattern@) is None,
            Err(f) => glob_fault(pattern@) == Some((f.position, f.message@)),
        },
{
    match glob::Pattern::new(pattern) {
        Ok(_) => Ok(()),
        Err(e) => Err(PatternFault { position: e.pos, message: e.msg.to_owned() }),
    }
}

/// `glob::Pattern::matches_path` on a pattern that compiles: the texts of the pattern and of the
/// path alone decide.
#[verifier::external_body]
fn match_path(pattern: &str, path: &str) -> (r: bool)
    requires
        glob_fault(pattern@) is None,
    ensures
        r == glob_matches(pattern@, path@),
{
    glob::Pattern::new(pattern).unwrap().matches_path(Path::new(path))
}

/// Some pattern of the list matches the path.
pub open spec fn any_matches(patterns: Seq<Seq<char>>, path: Seq<char>) -> bool {
    exists|k: int| 0 <= k < patterns.len() && glob_matches(#[trigger] patterns[k], path)
}

/// Of each path, whether some pattern matches it.
pub open spec fn match_flags(paths: Seq<Seq<char>>, patterns: Seq<Seq<char>>) -> Seq<bool> {
    Seq::new(paths.len(), |i: int| any_matches(patterns, paths[i]))
}

/// Every pattern of the list is well-formed.
pub open spec fn all_compile(patterns: Seq<Seq<char>>) -> bool {
    forall|k: int| 0 <= k < patterns.len() ==> glob_fault(#[trigger] patterns[k]) is None
}

/// Pattern `k` is the first of the list that is malformed.
pub open spec fn first_fault(patterns: Seq<Seq<char>>, k: int) -> bool {
    &&& 0 <= k < patterns.len()
    &&& glob_fault(patterns[k]) is Some
    &&& forall|j: int| 0 <= j < k ==> glob_fault(#[trigger] patterns[j]) is None
}

/// Checks that every pattern is well-formed, or names the first that is not.
pub fn check_patterns(patterns: &Vec<String>) -> (r: Result<(), (usize, PatternFault)>)
    ensures
        match r {
            Ok(_) => all_compile(texts(patterns@)),
            Err((k, f)) => first_fault(texts(patterns@), k as int) && glob_fault(
                texts(patterns@)[k as int],
            ) == Some((f.position, f.message@)),
        },
{
    let ghost all = texts(patterns@);
    let mut i: usize = 0;
    while i < patterns.len()
        invariant
            all == texts(patterns@),
            i <= patterns@.len(),
            forall|j: int| 0 <= j < i ==> glob_fault(#[trigger] all[j]) is None,
        decreases patterns@.len() - i,
    {
        assert(all[i as int] == patterns@[i as int]@);
        match compile_pattern(&patterns[i]) {
            Ok(_) => {},
            Err(f) => {
                return Err((i, f));
            },
        }
        i += 1;
    }
    Ok(())
}

/// Whether some pattern of the list matches the path.
fn matches_any(patterns: &Vec<String>, path: &str) -> (r: bool)
    requires
        all_compile(texts(patterns@)),
    ensures
        r == any_matches(texts(patterns@), path@),
{
    let ghost all = texts(patterns@);
    let mut i: usize = 0;
    while i < patterns.len()
        invariant
            all == texts(patterns@),
            all_compile(all),
            i <= patterns@.len(),
            forall|j: int| 0 <= j < i ==> !glob_matches(#[trigger] all[j], path@),
        decreases patterns@.len() - i,
    {
        assert(all[i as int] == patterns@[i as int]@);
        if match_path(&patterns[i], path) {
            return true;
        }
        i += 1;
    }
    false
}

/// Tells of each path whether some pattern matches it, or names the first malformed pattern.
pub fn flag_matching(paths: &Vec<String>, patterns: &Vec<String>) -> (r: Result<
    Vec<bool>,
    (usize, PatternFault),
>)
    ensures
        match r {
            Ok(flags) => all_compile(texts(patterns@)) && flags@ == match_flags(
                texts(paths@),
                texts(patterns@),
            ),
            Err((k, f)) => first_fault(texts(patterns@), k as int) && glob_fault(
                texts(patterns@)[k as int],
            ) == Some((f.position, f.message@)),
        },
{
    match check_patterns(patterns) {
        Ok(_) => {},
        Err(e) => {
            return Err(e);
        },
    }
    let mut flags: Vec<bool> = Vec::new();
    let mut i: usize = 0;
    while i < paths.len()
        invariant
            all_compile(texts(patterns@)),
            i <= paths@.len(),
            flags@.len() == i,
            forall|j: int|
                0 <= j < i ==> #[trigger] flags@[j] == any_matches(
                    texts(patterns@),
                    texts(paths@)[j],
                ),
        decreases paths@.len() - i,
    {
        let hit: bool = matches_any(patterns, &paths[i]);
        flags.push(hit);
        i += 1;
    }
    assert(flags@ =~= match_flags(texts(paths@), texts(patterns@)));
    Ok(flags)
}

} // verus!

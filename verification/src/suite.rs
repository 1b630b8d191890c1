//! Choosing the test files to run.
use vstd::prelude::*;

use crate::args::push_all;
use crate::key::{is_zena_file, zena_extension};
use crate::number::{decimal, parse_u32, parse_unsigned, to_decimal};
use crate::order::{is_stable_sort_of, sort_paths};
use crate::path::{extension, file_name, get_file_name, is_dir_part};
use crate::pattern::{
    any_matches, first_fault, flag_matching, glob_fault, glob_matches, match_flags, PatternFault,
};
use crate::text::{
    contains, contains_text, glue, has_suffix, opt_str, opt_text, texts, without,
};

verus! {

// ---------------------------------------------------------------------------------------------
// Finding
// ---------------------------------------------------------------------------------------------
/// The text holds the character.
pub open spec fn has_char(s: Seq<char>, c: char) -> bool {
    exists|i: int| 0 <= i < s.len() && s[i] == c
}

/// The argument is a glob pattern and not a path: it holds `*`, `?` or `[`.
pub open spec fn looks_like_glob(s: Seq<char>) -> bool {
    has_char(s, '*') || has_char(s, '?') || has_char(s, '[')
}

/// Whether an argument is a glob pattern and not a path.
pub fn is_glob(s: &str) -> (r: bool)
    ensures
        r == looks_like_glob(s@),
{
    let c: Vec<char> = crate::text::chars_of(s);
    let mut i: usize = 0;
    while i < c.len()
        invariant
            c@ == s@,
            i <= c@.len(),
            forall|j: int| 0 <= j < i ==> c@[j] != '*' && c@[j] != '?' && c@[j] != '[',
        decreases c@.len() - i,
    {
        if c[i] == '*' || c[i] == '?' || c[i] == '[' {
            assert(s@[i as int] == '*' || s@[i as int] == '?' || s@[i as int] == '[');
            return true;
        }
        i += 1;
    }
    false
}

/// A path met while looking for tests.
#[derive(Debug)]
pub struct Found {
    pub path: String,
    pub is_file: bool,
}

/// What the host found under an argument.
#[derive(Debug)]
pub enum PathScan {
    /// What a glob pattern matched.
    Glob(Vec<Found>),
    /// The glob pattern is malformed, for this reason.
    BadGlob(String),
    /// The argument is a file.
    File,
    /// The argument is a directory, and this is the walk through it.
    Dir(Vec<Found>),
    /// The walk through the directory failed, for this reason.
    WalkFailed(String),
    /// There is nothing under this path.
    Missing,
}

/// An argument of the test command, with what was found under it.
#[derive(Debug)]
pub struct PathArg {
    pub text: String,
    pub scan: PathScan,
}

/// Why no tests can be run.
#[derive(Debug)]
pub enum SelectError {
    BadGlob { pattern: String, reason: String },
    WalkFailed { reason: String },
    NotFound { path: String },
    BadExclude { pattern: String, fault: PatternFault },
    /// Nothing is left to run, after `skipped` files were excluded.
    NoTests { skipped: usize },
}

/// A file that a glob pattern matched is a test if it is a Zena file.
pub open spec fn glob_hits(found: Seq<Found>) -> Seq<Seq<char>>
    decreases found.len(),
{
    if found.len() == 0 {
        Seq::empty()
    } else {
        let before = glob_hits(found.drop_last());
        let f = found.last();
        if f.is_file && extension(f.path@) == Some(zena_extension()) {
            before.push(f.path@)
        } else {
            before
        }
    }
}

/// The name of a test in a directory ends in `_test.zena`.
pub open spec fn is_test_name(path: Seq<char>) -> bool {
    match file_name(path) {
        Some(n) => "_test.zena"@.is_suffix_of(n),
        None => false,
    }
}

/// A file in a directory is a test by its name.
pub open spec fn dir_hits(found: Seq<Found>) -> Seq<Seq<char>>
    decreases found.len(),
{
    if found.len() == 0 {
        Seq::empty()
    } else {
        let before = dir_hits(found.drop_last());
        let f = found.last();
        if f.is_file && is_test_name(f.path@) {
            before.push(f.path@)
        } else {
            before
        }
    }
}

/// The tests under an argument, where it could be read.
pub open spec fn arg_hits(arg: PathArg) -> Option<Seq<Seq<char>>> {
    match arg.scan {
        PathScan::Glob(found) => Some(glob_hits(found@)),
        PathScan::File => Some(
            if extension(arg.text@) == Some(zena_extension()) {
                seq![arg.text@]
            } else {
                Seq::empty()
            },
        ),
        PathScan::Dir(found) => Some(dir_hits(found@)),
        _ => None,
    }
}

/// The tests under all arguments, in order, where all could be read.
pub open spec fn all_hits(args: Seq<PathArg>) -> Option<Seq<Seq<char>>>
    decreases args.len(),
{
    if args.len() == 0 {
        Some(Seq::empty())
    } else {
        match (all_hits(args.drop_last()), arg_hits(args.last())) {
            (Some(a), Some(b)) => Some(a + b),
            _ => None,
        }
    }
}

/// The error belongs to the argument.
pub open spec fn arg_error(arg: PathArg, e: SelectError) -> bool {
    match arg.scan {
        PathScan::BadGlob(reason) => e matches SelectError::BadGlob { pattern, reason: r } && pattern@
            == arg.text@ && r@ == reason@,
        PathScan::WalkFailed(reason) => e matches SelectError::WalkFailed { reason: r } && r@
            == reason@,
        PathScan::Missing => e matches SelectError::NotFound { path } && path@ == arg.text@,
        _ => false,
    }
}

/// The error is that of the first argument that could not be read.
pub open spec fn first_arg_error(args: Seq<PathArg>, e: SelectError) -> bool {
    exists|k: int|
        0 <= k < args.len() && all_hits(args.take(k)) is Some && arg_error(#[trigger] args[k], e)
}

fn push_glob_hits(out: &mut Vec<String>, found: &Vec<Found>)
    ensures
        texts(final(out)@) == texts(old(out)@) + glob_hits(found@),
{
    let ghost start = texts(out@);
    let mut i: usize = 0;
    assert(found@.take(0) =~= Seq::<Found>::empty());
    assert(start + Seq::<Seq<char>>::empty() =~= start);
    while i < found.len()
        invariant
            i <= found@.len(),
            texts(out@) == start + glob_hits(found@.take(i as int)),
        decreases found@.len() - i,
    {
        let f: &Found = &found[i];
        assert(found@.take(i + 1).drop_last() =~= found@.take(i as int));
        if f.is_file && is_zena_file(&f.path) {
            let ghost before = out@;
            out.push(f.path.clone());
            assert(texts(out@) =~= texts(before).push(f.path@));
            assert(texts(out@) =~= start + glob_hits(found@.take(i as int)).push(f.path@));
        }
        i += 1;
    }
    assert(found@.take(i as int) =~= found@);
}

fn push_dir_hits(out: &mut Vec<String>, found: &Vec<Found>)
    ensures
        texts(final(out)@) == texts(old(out)@) + dir_hits(found@),
{
    let ghost start = texts(out@);
    let mut i: usize = 0;
    assert(found@.take(0) =~= Seq::<Found>::empty());
    assert(start + Seq::<Seq<char>>::empty() =~= start);
    while i < found.len()
        invariant
            i <= found@.len(),
            texts(out@) == start + dir_hits(found@.take(i as int)),
        decreases found@.len() - i,
    {
        let f: &Found = &found[i];
        assert(found@.take(i + 1).drop_last() =~= found@.take(i as int));
        let named: bool = match get_file_name(&f.path) {
            Some(n) => has_suffix(&n, "_test.zena"),
            None => false,
        };
        if f.is_file && named {
            let ghost before = out@;
            out.push(f.path.clone());
            assert(texts(out@) =~= texts(before).push(f.path@));
            assert(texts(out@) =~= start + dir_hits(found@.take(i as int)).push(f.path@));
        }
        i += 1;
    }
    assert(found@.take(i as int) =~= found@);
}

/// The tests under the arguments, or the error of the first that could not be read.
pub fn collect_tests(args: &Vec<PathArg>) -> (r: Result<Vec<String>, SelectError>)
    ensures
        match r {
            Ok(files) => all_hits(args@) == Some(texts(files@)),
            Err(e) => first_arg_error(args@, e) && all_hits(args@) is None,
        },
{
    let mut out: Vec<String> = Vec::new();
    let mut i: usize = 0;
    proof {
        assert(args@.take(0) =~= Seq::<PathArg>::empty());
        assert(texts(out@) =~= Seq::<Seq<char>>::empty());
    }
    while i < args.len()
        invariant
            i <= args@.len(),
            all_hits(args@.take(i as int)) == Some(texts(out@)),
        decreases args@.len() - i,
    {
        let arg: &PathArg = &args[i];
        let ghost before = texts(out@);
        proof {
            assert(args@.take(i + 1).drop_last() =~= args@.take(i as int));
            if arg_hits(*arg) is None {
                lemma_unreadable_stays(args@, i + 1);
            }
        }
        match &arg.scan {
            PathScan::Glob(found) => push_glob_hits(&mut out, found),
            PathScan::File => {
                if is_zena_file(&arg.text) {
                    out.push(arg.text.clone());
                    assert(texts(out@) =~= before + seq![arg.text@]);
                } else {
                    assert(texts(out@) =~= before + Seq::<Seq<char>>::empty());
                }
            },
            PathScan::Dir(found) => push_dir_hits(&mut out, found),
            PathScan::BadGlob(reason) => {
                let e: SelectError = SelectError::BadGlob {
                    pattern: arg.text.clone(),
                    reason: reason.clone(),
                };
                assert(arg_error(args@[i as int], e));
                return Err(e);
            },
            PathScan::WalkFailed(reason) => {
                let e: SelectError = SelectError::WalkFailed { reason: reason.clone() };
                assert(arg_error(args@[i as int], e));
                return Err(e);
            },
            PathScan::Missing => {
                let e: SelectError = SelectError::NotFound { path: arg.text.clone() };
                assert(arg_error(args@[i as int], e));
                return Err(e);
            },
        }
        i += 1;
    }
    assert(args@.take(i as int) =~= args@);
    Ok(out)
}

/// An argument that could not be read spoils the whole list.
proof fn lemma_unreadable_stays(args: Seq<PathArg>, k: int)
    requires
        0 <= k <= args.len(),
        all_hits(args.take(k)) is None,
    ensures
        all_hits(args) is None,
    decreases args.len() - k,
{
    if k < args.len() {
        assert(args.take(k + 1).drop_last() =~= args.take(k));
        lemma_unreadable_stays(args, k + 1);
    } else {
        assert(args.take(k) =~= args);
    }
}

// ---------------------------------------------------------------------------------------------
// Choosing
// ---------------------------------------------------------------------------------------------
/// The files without those that are flagged. A file without a flag stays.
pub open spec fn unflagged(files: Seq<Seq<char>>, flags: Seq<bool>) -> Seq<Seq<char>>
    decreases files.len(),
{
    if files.len() == 0 {
        Seq::empty()
    } else {
        let before = unflagged(files.drop_last(), flags);
        if files.len() <= flags.len() && flags[files.len() - 1] {
            before
        } else {
            before.push(files.last())
        }
    }
}

/// The files whose paths hold the filter's text; all of them without a filter.
pub open spec fn wanted(files: Seq<Seq<char>>, filter: Option<Seq<char>>) -> Seq<Seq<char>> {
    match filter {
        Some(f) => files.filter(|p: Seq<char>| contains_text(p, f)),
        None => files,
    }
}

/// The tests to run.
#[derive(Debug)]
pub struct Selection {
    /// The files, in order.
    pub files: Vec<String>,
    /// How many files were excluded.
    pub skipped: usize,
}

/// The outcome for found files, some of them flagged for exclusion.
pub open spec fn is_selection(
    r: Result<Selection, SelectError>,
    files: Seq<Seq<char>>,
    flags: Seq<bool>,
    filter: Option<Seq<char>>,
) -> bool {
    let kept = unflagged(files, flags);
    let chosen = wanted(kept, filter);
    match r {
        Ok(s) => chosen.len() > 0 && is_stable_sort_of(texts(s.files@), chosen) && s.skipped
            == files.len() - kept.len(),
        Err(e) => chosen.len() == 0 && (e matches SelectError::NoTests { skipped } && skipped
            == files.len() - kept.len()),
    }
}

fn drop_flagged(files: &Vec<String>, flags: &Vec<bool>) -> (r: Vec<String>)
    ensures
        texts(r@) == unflagged(texts(files@), flags@),
        r@.len() <= files@.len(),
{
    let ghost all = texts(files@);
    let mut kept: Vec<String> = Vec::new();
    let mut i: usize = 0;
    assert(all.take(0) =~= Seq::<Seq<char>>::empty());
    assert(texts(kept@) =~= Seq::<Seq<char>>::empty());
    while i < files.len()
        invariant
            all == texts(files@),
            i <= files@.len(),
            kept@.len() <= i,
            texts(kept@) == unflagged(all.take(i as int), flags@),
        decreases files@.len() - i,
    {
        let ghost before = kept@;
        assert(all.take(i + 1).drop_last() =~= all.take(i as int));
        if i >= flags.len() || !flags[i] {
            kept.push(files[i].clone());
            assert(texts(kept@) =~= texts(before).push(files@[i as int]@));
        }
        i += 1;
    }
    assert(all.take(i as int) =~= all);
    kept
}

fn keep_wanted(files: Vec<String>, filter: Option<&str>) -> (r: Vec<String>)
    ensures
        texts(r@) == wanted(texts(files@), opt_str(filter)),
{
    match filter {
        None => files,
        Some(f) => {
            let ghost all = texts(files@);
            let ghost pred = |p: Seq<char>| contains_text(p, f@);
            let mut kept: Vec<String> = Vec::new();
            let mut i: usize = 0;
            proof {
                assert(all.take(0) =~= Seq::<Seq<char>>::empty());
                reveal(Seq::filter);
                assert(texts(kept@) =~= all.take(0).filter(pred));
            }
            while i < files.len()
                invariant
                    all == texts(files@),
                    pred == (|p: Seq<char>| contains_text(p, f@)),
                    i <= files@.len(),
                    texts(kept@) == all.take(i as int).filter(pred),
                decreases files@.len() - i,
            {
                let ghost before = kept@;
                proof {
                    assert(all.take(i + 1) =~= all.take(i as int).push(files@[i as int]@));
                    all.take(i as int).lemma_filter_push(files@[i as int]@, pred);
                }
                if contains(&files[i], f) {
                    kept.push(files[i].clone());
                    assert(texts(kept@) =~= texts(before).push(files@[i as int]@));
                }
                i += 1;
            }
            assert(all.take(i as int) =~= all);
            kept
        },
    }
}

/// Drops the flagged files and those that the filter does not want, and puts the rest in order.
pub fn arrange_tests(files: &Vec<String>, flags: &Vec<bool>, filter: Option<&str>) -> (r: Result<
    Selection,
    SelectError,
>)
    ensures
        is_selection(r, texts(files@), flags@, opt_str(filter)),
{
    let kept: Vec<String> = drop_flagged(files, flags);
    let skipped: usize = files.len() - kept.len();
    let chosen: Vec<String> = keep_wanted(kept, filter);
    let sorted: Vec<String> = sort_paths(&chosen);
    proof {
        let s = texts(sorted@);
        let c = texts(chosen@);
        broadcast use vstd::seq_lib::group_to_multiset_ensures;

        assert(s.to_multiset().len() == s.len());
        assert(c.to_multiset().len() == c.len());
    }
    if sorted.len() == 0 {
        Err(SelectError::NoTests { skipped })
    } else {
        Ok(Selection { files: sorted, skipped })
    }
}

/// The outcome of the test command's choice.
pub open spec fn is_choice(
    r: Result<Selection, SelectError>,
    args: Seq<PathArg>,
    filter: Option<Seq<char>>,
    exclude: Seq<Seq<char>>,
) -> bool {
    match all_hits(args) {
        None => r matches Err(e) && first_arg_error(args, e),
        Some(files) => if exists|k: int| first_fault(exclude, k) {
            let k = choose|k: int| first_fault(exclude, k);
            r matches Err(SelectError::BadExclude { pattern, fault }) && pattern@ == exclude[k]
                && glob_fault(exclude[k]) == Some((fault.position, fault.message@))
        } else {
            is_selection(r, files, match_flags(files, exclude), filter)
        },
    }
}

/// Chooses the tests to run: those found under the arguments that no exclude pattern matches and
/// that the filter wants, in order.
pub fn run_all_tests(args: &Vec<PathArg>, filter: Option<&str>, exclude: &Vec<String>) -> (r:
    Result<Selection, SelectError>)
    ensures
        is_choice(r, args@, opt_str(filter), texts(exclude@)),
{
    let files: Vec<String> = match collect_tests(args) {
        Ok(f) => f,
        Err(e) => {
            return Err(e);
        },
    };
    let ghost pats = texts(exclude@);
    match flag_matching(&files, exclude) {
        Ok(flags) => {
            assert(!(exists|k: int| first_fault(pats, k)));
            arrange_tests(&files, &flags, filter)
        },
        Err((k, fault)) => {
            proof {
                let c = choose|c: int| first_fault(pats, c);
                assert(first_fault(pats, k as int));
                assert(c == k) by {
                    if c < k {
                        assert(glob_fault(pats[c]) is None);
                    } else if k < c {
                        assert(glob_fault(pats[k as int]) is None);
                    }
                }
                assert(pats[k as int] == exclude@[k as int]@);
            }
            Err(SelectError::BadExclude { pattern: exclude[k].clone(), fault })
        },
    }
}

proof fn lemma_unflagged_members(files: Seq<Seq<char>>, patterns: Seq<Seq<char>>, n: int, p: Seq<char>)
    requires
        0 <= n <= files.len(),
    ensures
        unflagged(files.take(n), match_flags(files, patterns)).contains(p) <==> files.take(
            n,
        ).contains(p) && !crate::pattern::any_matches(patterns, p),
    decreases n,
{
    let flags = match_flags(files, patterns);
    if n == 0 {
        assert(files.take(0) =~= Seq::<Seq<char>>::empty());
    } else {
        lemma_unflagged_members(files, patterns, n - 1, p);
        let all = files.take(n);
        let x = files[n - 1];
        assert(all.drop_last() =~= files.take(n - 1));
        assert(all.last() == x);
        assert(all =~= files.take(n - 1).push(x));
        let before = unflagged(files.take(n - 1), flags);
        lemma_contains_push(files.take(n - 1), x, p);
        lemma_contains_push(before, x, p);
    }
}

proof fn lemma_contains_push(s: Seq<Seq<char>>, x: Seq<char>, p: Seq<char>)
    ensures
        s.push(x).contains(p) <==> s.contains(p) || x == p,
{
    if s.contains(p) {
        let i = choose|i: int| 0 <= i < s.len() && s[i] == p;
        assert(s.push(x)[i] == p);
    }
    if x == p {
        assert(s.push(x)[s.len() as int] == p);
    }
    if s.push(x).contains(p) && x != p {
        let i = choose|i: int| 0 <= i < s.push(x).len() && s.push(x)[i] == p;
        assert(s[i] == p);
    }
}

/// A file is run exactly when it was found, no exclude pattern matches it, and the filter, where
/// there is one, wants it.
pub proof fn chosen_files_are_the_wanted_ones(
    s: Selection,
    args: Seq<PathArg>,
    filter: Option<Seq<char>>,
    exclude: Seq<Seq<char>>,
    p: Seq<char>,
)
    requires
        is_choice(Ok(s), args, filter, exclude),
    ensures
        all_hits(args) is Some,
        texts(s.files@).contains(p) <==> {
            &&& all_hits(args)->0.contains(p)
            &&& !crate::pattern::any_matches(exclude, p)
            &&& filter matches Some(f) ==> contains_text(p, f)
        },
{
    let files = all_hits(args)->0;
    let kept = unflagged(files, match_flags(files, exclude));
    let chosen = wanted(kept, filter);
    lemma_unflagged_members(files, exclude, files.len() as int, p);
    assert(files.take(files.len() as int) =~= files);
    match filter {
        Some(f) => {
            let pred = |q: Seq<char>| contains_text(q, f);
            if chosen.contains(p) {
                let i = choose|i: int| 0 <= i < chosen.len() && chosen[i] == p;
                kept.lemma_filter_pred(pred, i);
                kept.lemma_filter_contains_rev(pred, p);
            }
            if kept.contains(p) && pred(p) {
                let i = choose|i: int| 0 <= i < kept.len() && kept[i] == p;
                kept.lemma_filter_contains(pred, i);
            }
        },
        None => {},
    }
    let sorted = texts(s.files@);
    broadcast use vstd::seq_lib::group_to_multiset_ensures;

    assert(sorted.contains(p) <==> sorted.to_multiset().count(p) > 0);
    assert(chosen.contains(p) <==> chosen.to_multiset().count(p) > 0);
}

// ---------------------------------------------------------------------------------------------
// Running
// ---------------------------------------------------------------------------------------------
/// How many tests run at once: what the environment asks for, where that is a positive number,
/// or else as many as the machine runs, four where that is unknown, and at most eight.
pub open spec fn parallelism_for(asked: Option<Seq<char>>, available: Option<usize>) -> int {
    let n = match asked {
        Some(s) => parse_unsigned(s, u32::MAX as nat),
        None => None,
    };
    let machine = match available {
        Some(a) => (a as u32) as int,
        None => 4,
    };
    match n {
        Some(k) if k > 0 => k as int,
        _ => if machine < 8 {
            machine
        } else {
            8
        },
    }
}

/// How many tests run at once.
pub fn parallelism(asked: Option<&str>, available: Option<usize>) -> (r: u32)
    ensures
        r == parallelism_for(opt_str(asked), available),
{
    match asked {
        Some(s) => match parse_u32(s) {
            Some(n) => {
                if n > 0 {
                    return n;
                }
            },
            None => {},
        },
        None => {},
    }
    let machine: u32 = match available {
        Some(a) => a as u32,
        None => 4,
    };
    if machine < 8 {
        machine
    } else {
        8
    }
}

/// The arguments of the program that runs the tests: this tool, how many at once, whether to
/// debug, and the files.
pub fn orchestrator_args(self_exe: &str, parallelism: u32, debug: bool, files: &Vec<String>) -> (r:
    Vec<String>)
    ensures
        texts(r@) == seq![
            self_exe@,
            decimal(parallelism as int),
            if debug {
                "1"@
            } else {
                "0"@
            },
        ] + texts(files@),
{
    let mut args: Vec<String> = Vec::new();
    args.push(self_exe.to_owned());
    args.push(to_decimal(parallelism as u64));
    args.push(
        if debug {
            "1".to_owned()
        } else {
            "0".to_owned()
        },
    );
    let ghost head = texts(args@);
    assert(head =~= seq![
        self_exe@,
        decimal(parallelism as int),
        if debug {
            "1"@
        } else {
            "0"@
        },
    ]);
    push_all(&mut args, files);
    args
}

/// The message for an error.
pub open spec fn select_message(e: SelectError) -> Seq<char> {
    match e {
        SelectError::BadGlob { pattern, reason } => "Invalid glob pattern '"@ + pattern@ + "': "@
            + reason@,
        SelectError::WalkFailed { reason } => reason@,
        SelectError::NotFound { path } => "Path not found: "@ + path@,
        SelectError::BadExclude { pattern, fault } => "Invalid --exclude pattern '"@ + pattern@
            + "'"@,
        SelectError::NoTests { skipped } => "No tests found matching the path/filter."@,
    }
}

impl SelectError {
    /// The message for this error.
    pub fn message(&self) -> (r: String)
        ensures
            r@ == select_message(*self),
    {
        match self {
            SelectError::BadGlob { pattern, reason } => {
                let a: String = glue("Invalid glob pattern '", pattern);
                let b: String = glue(&a, "': ");
                glue(&b, reason)
            },
            SelectError::WalkFailed { reason } => reason.clone(),
            SelectError::NotFound { path } => glue("Path not found: ", path),
            SelectError::BadExclude { pattern, fault: _ } => {
                let a: String = glue("Invalid --exclude pattern '", pattern);
                glue(&a, "'")
            },
            SelectError::NoTests { skipped: _ } => {
                "No tests found matching the path/filter.".to_owned()
            },
        }
    }
}

/// The line that says how many files were excluded, where any were.
pub fn excluding_line(skipped: usize) -> (r: Option<String>)
    ensures
        opt_text(r) == (if skipped > 0 {
            Some("Excluding "@ + decimal(skipped as int) + " test file(s) by --exclude"@)
        } else {
            None
        }),
{
    if skipped > 0 {
        let n: String = to_decimal(skipped as u64);
        let head: String = glue("Excluding ", &n);
        Some(glue(&head, " test file(s) by --exclude"))
    } else {
        None
    }
}

/// The line that says how many tests run.
pub fn running_line(count: usize) -> (r: String)
    ensures
        r@ == "Running "@ + decimal(count as int) + " tests..."@,
{
    let n: String = to_decimal(count as u64);
    let head: String = glue("Running ", &n);
    glue(&head, " tests...")
}

// ---------------------------------------------------------------------------------------------
// What is found
// ---------------------------------------------------------------------------------------------
/// An argument is a glob pattern exactly when it holds one of the three characters.
pub proof fn globs_hold_a_wildcard(s: Seq<char>)
    ensures
        looks_like_glob(s) <==> exists|i: int|
            0 <= i < s.len() && (#[trigger] s[i] == '*' || s[i] == '?' || s[i] == '['),
{
    if looks_like_glob(s) {
        let c = if has_char(s, '*') {
            '*'
        } else if has_char(s, '?') {
            '?'
        } else {
            '['
        };
        let i = choose|i: int| 0 <= i < s.len() && s[i] == c;
        assert(s[i] == '*' || s[i] == '?' || s[i] == '[');
    }
}

/// What a walk, or a glob pattern, finds in two stretches is what it finds in the one and then in
/// the other.
pub proof fn hits_add_up(found: Seq<Found>, more: Seq<Found>)
    ensures
        dir_hits(found + more) == dir_hits(found) + dir_hits(more),
        glob_hits(found + more) == glob_hits(found) + glob_hits(more),
        dir_hits(Seq::empty()).len() == 0,
        glob_hits(Seq::empty()).len() == 0,
    decreases more.len(),
{
    if more.len() == 0 {
        assert(found + more =~= found);
        assert(dir_hits(found) + dir_hits(more) =~= dir_hits(found));
        assert(glob_hits(found) + glob_hits(more) =~= glob_hits(found));
    } else {
        let all = found + more;
        hits_add_up(found, more.drop_last());
        assert(all.drop_last() =~= found + more.drop_last());
        assert(all.last() == more.last());
        assert(dir_hits(all) =~= dir_hits(found) + dir_hits(more));
        assert(glob_hits(all) =~= glob_hits(found) + glob_hits(more));
    }
}

/// A path that a walk meets is a test exactly when it is a file and what stands behind its last
/// separator ends in `_test.zena`, however deep it lies.
pub proof fn walks_take_test_names(f: Found, dir: Seq<char>, n: Seq<char>)
    requires
        f.path@ == dir + n,
        is_dir_part(dir),
        n.len() > 0,
        without(n, '/'),
        n != seq!['.'],
    ensures
        dir_hits(seq![f]) == (if f.is_file && "_test.zena"@.is_suffix_of(n) {
            seq![f.path@]
        } else {
            Seq::empty()
        }),
{
    reveal_strlit("_test.zena");
    assert("_test.zena"@.len() == 10);
    if n == seq!['.', '.'] {
        assert(n.len() == 2);
        crate::path::some_paths_have_no_name(dir);
    } else {
        crate::path::names_stand_behind_the_last_separator(dir, n);
    }
    assert(seq![f].drop_last() =~= Seq::<Found>::empty());
    assert(dir_hits(seq![f].drop_last()) =~= Seq::<Seq<char>>::empty());
    assert(dir_hits(seq![f]) =~= if f.is_file && "_test.zena"@.is_suffix_of(n) {
        seq![f.path@]
    } else {
        Seq::empty()
    });
}

/// A path that a glob pattern matches, or that is named itself, is a test exactly when it is a
/// file and what stands behind its last separator ends in `.zena`, with something in front.
pub proof fn zena_files_are_tests(f: Found, arg: PathArg, dir: Seq<char>, n: Seq<char>)
    requires
        f.path@ == dir + n,
        arg.text@ == dir + n,
        arg.scan is File,
        is_dir_part(dir),
        n.len() > 0,
        without(n, '/'),
        n != seq!['.'],
    ensures
        glob_hits(seq![f]) == (if f.is_file && n.len() > 5 && ".zena"@.is_suffix_of(n) {
            seq![f.path@]
        } else {
            Seq::empty()
        }),
        arg_hits(arg) == Some(
            if n.len() > 5 && ".zena"@.is_suffix_of(n) {
                seq![arg.text@]
            } else {
                Seq::empty()
            },
        ),
{
    reveal_strlit(".zena");
    let ext = zena_extension();
    assert(seq!['.'] + ext =~= ".zena"@);
    crate::path::extensions_go_by_the_end(dir, n, ext);
    assert(seq![f].drop_last() =~= Seq::<Found>::empty());
    assert(glob_hits(seq![f].drop_last()) =~= Seq::<Seq<char>>::empty());
    assert(glob_hits(seq![f]) =~= if f.is_file && n.len() > 5 && ".zena"@.is_suffix_of(n) {
        seq![f.path@]
    } else {
        Seq::empty()
    });
}

proof fn lemma_dir_hits_members(found: Seq<Found>, p: Seq<char>)
    ensures
        dir_hits(found).contains(p) <==> exists|i: int|
            0 <= i < found.len() && (#[trigger] found[i]).is_file && found[i].path@ == p
                && is_test_name(p),
    decreases found.len(),
{
    if found.len() > 0 {
        let t = found.drop_last();
        let f = found.last();
        lemma_dir_hits_members(t, p);
        lemma_contains_push(dir_hits(t), f.path@, p);
        if dir_hits(t).contains(p) {
            let i = choose|i: int|
                0 <= i < t.len() && (#[trigger] t[i]).is_file && t[i].path@ == p && is_test_name(p);
            assert(found[i] == t[i]);
        }
        if f.is_file && f.path@ == p && is_test_name(p) {
            assert(found[found.len() - 1] == f);
        }
        if exists|i: int|
            0 <= i < found.len() && (#[trigger] found[i]).is_file && found[i].path@ == p
                && is_test_name(p) {
            let i = choose|i: int|
                0 <= i < found.len() && (#[trigger] found[i]).is_file && found[i].path@ == p
                    && is_test_name(p);
            if i < t.len() {
                assert(t[i] == found[i]);
            }
        }
    }
}

/// A path is among the tests of a directory exactly when the walk met it as a file and what stands
/// behind its last separator ends in `_test.zena`.
pub proof fn tests_of_a_directory_go_by_name(found: Seq<Found>, dir: Seq<char>, n: Seq<char>)
    requires
        is_dir_part(dir),
        n.len() > 0,
        without(n, '/'),
        n != seq!['.'],
    ensures
        dir_hits(found).contains(dir + n) <==> "_test.zena"@.is_suffix_of(n) && exists|i: int|
            0 <= i < found.len() && (#[trigger] found[i]).is_file && found[i].path@ == dir + n,
{
    let p = dir + n;
    lemma_dir_hits_members(found, p);
    reveal_strlit("_test.zena");
    assert("_test.zena"@.len() == 10);
    if n == seq!['.', '.'] {
        assert(n.len() == 2);
        crate::path::some_paths_have_no_name(dir);
    } else {
        crate::path::names_stand_behind_the_last_separator(dir, n);
    }
    if "_test.zena"@.is_suffix_of(n) {
        if exists|i: int|
            0 <= i < found.len() && (#[trigger] found[i]).is_file && found[i].path@ == p {
            let i = choose|i: int|
                0 <= i < found.len() && (#[trigger] found[i]).is_file && found[i].path@ == p;
            assert(found[i].is_file && found[i].path@ == p && is_test_name(p));
        }
    }
}

/// The tests of several arguments are those of each, in order; one that cannot be read makes all
/// of them unreadable.
pub proof fn arguments_add_up(args: Seq<PathArg>, arg: PathArg)
    ensures
        all_hits(Seq::empty()) == Some(Seq::<Seq<char>>::empty()),
        match all_hits(args) {
            Some(before) => match arg.scan {
                PathScan::Dir(found) => all_hits(args.push(arg)) == Some(before + dir_hits(found@)),
                PathScan::Glob(found) => all_hits(args.push(arg)) == Some(
                    before + glob_hits(found@),
                ),
                PathScan::File => arg_hits(arg) is Some && all_hits(args.push(arg)) == Some(
                    before + arg_hits(arg)->0,
                ),
                _ => all_hits(args.push(arg)) is None,
            },
            None => all_hits(args.push(arg)) is None,
        },
{
    assert(args.push(arg).drop_last() =~= args);
}

/// The first argument that cannot be read is the one that is complained about, with its own text.
pub proof fn the_first_unreadable_argument_is_named(
    e: SelectError,
    args: Seq<PathArg>,
    filter: Option<Seq<char>>,
    exclude: Seq<Seq<char>>,
    k: int,
)
    requires
        is_choice(Err(e), args, filter, exclude),
        0 <= k < args.len(),
        all_hits(args.take(k)) is Some,
        arg_hits(args[k]) is None,
    ensures
        match args[k].scan {
            PathScan::BadGlob(why) => e matches SelectError::BadGlob { pattern, reason } && pattern@
                == args[k].text@ && reason@ == why@,
            PathScan::WalkFailed(why) => e matches SelectError::WalkFailed { reason } && reason@
                == why@,
            PathScan::Missing => e matches SelectError::NotFound { path } && path@ == args[k].text@,
            _ => false,
        },
{
    lemma_prefix_unreadable(args, k, args.len() as int);
    assert(args.take(args.len() as int) =~= args);
    let j = choose|j: int|
        0 <= j < args.len() && all_hits(args.take(j)) is Some && arg_error(#[trigger] args[j], e);
    if j < k {
        lemma_prefix_unreadable(args, j, k);
    } else if k < j {
        lemma_prefix_unreadable(args, k, j);
    }
}

proof fn lemma_prefix_unreadable(args: Seq<PathArg>, k: int, n: int)
    requires
        0 <= k < n <= args.len(),
        arg_hits(args[k]) is None,
    ensures
        all_hits(args.take(n)) is None,
    decreases n,
{
    let t = args.take(n);
    assert(t.drop_last() =~= args.take(n - 1));
    assert(t.last() == args[n - 1]);
    if k < n - 1 {
        lemma_prefix_unreadable(args, k, n - 1);
    }
}

proof fn lemma_unflagged_counts(
    files: Seq<Seq<char>>,
    patterns: Seq<Seq<char>>,
    n: int,
    p: Seq<char>,
)
    requires
        0 <= n <= files.len(),
    ensures
        unflagged(files.take(n), match_flags(files, patterns)).to_multiset().count(p) == (
        if any_matches(patterns, p) {
            0
        } else {
            files.take(n).to_multiset().count(p)
        }),
        unflagged(files.take(n), match_flags(files, patterns)).len() <= n,
    decreases n,
{
    broadcast use vstd::seq_lib::group_to_multiset_ensures;

    let flags = match_flags(files, patterns);
    if n == 0 {
        assert(files.take(0) =~= Seq::<Seq<char>>::empty());
    } else {
        lemma_unflagged_counts(files, patterns, n - 1, p);
        let all = files.take(n);
        let x = files[n - 1];
        assert(all.drop_last() =~= files.take(n - 1));
        assert(all =~= files.take(n - 1).push(x));
        assert(files.take(n - 1).push(x).to_multiset() =~= files.take(n - 1).to_multiset().insert(x));
        let before = unflagged(files.take(n - 1), flags);
        assert(before.push(x).to_multiset() =~= before.to_multiset().insert(x));
    }
}

proof fn lemma_filter_counts(s: Seq<Seq<char>>, f: Seq<char>, p: Seq<char>)
    ensures
        wanted(s, Some(f)).to_multiset().count(p) == (if contains_text(p, f) {
            s.to_multiset().count(p)
        } else {
            0
        }),
    decreases s.len(),
{
    broadcast use vstd::seq_lib::group_to_multiset_ensures;

    let pred = |q: Seq<char>| contains_text(q, f);
    reveal(Seq::filter);
    if s.len() > 0 {
        let t = s.drop_last();
        lemma_filter_counts(t, f, p);
        assert(s =~= t.push(s.last()));
        t.lemma_filter_push(s.last(), pred);
        let before = t.filter(pred);
        assert(t.push(s.last()).to_multiset() =~= t.to_multiset().insert(s.last()));
        assert(before.push(s.last()).to_multiset() =~= before.to_multiset().insert(s.last()));
    }
}

/// A file is run as often as it was found, unless an exclude pattern matches it or the filter's
/// text does not stand in its path; then it is not run.
pub proof fn chosen_files_run_as_often_as_found(
    s: Selection,
    args: Seq<PathArg>,
    filter: Option<Seq<char>>,
    exclude: Seq<Seq<char>>,
    p: Seq<char>,
)
    requires
        is_choice(Ok(s), args, filter, exclude),
    ensures
        all_hits(args) is Some,
        texts(s.files@).to_multiset().count(p) == (if (exists|k: int|
            0 <= k < exclude.len() && glob_matches(#[trigger] exclude[k], p)) || (filter is Some
            && !contains_text(p, filter->0)) {
            0
        } else {
            all_hits(args)->0.to_multiset().count(p)
        }),
{
    let files = all_hits(args)->0;
    let kept = unflagged(files, match_flags(files, exclude));
    lemma_unflagged_counts(files, exclude, files.len() as int, p);
    assert(files.take(files.len() as int) =~= files);
    if filter is Some {
        lemma_filter_counts(kept, filter->0, p);
    }
}

/// As many files are said to be excluded as an exclude pattern matches.
pub proof fn excluded_files_are_counted(
    s: Selection,
    args: Seq<PathArg>,
    filter: Option<Seq<char>>,
    exclude: Seq<Seq<char>>,
)
    requires
        is_choice(Ok(s), args, filter, exclude),
    ensures
        s.skipped == all_hits(args)->0.filter(|p: Seq<char>| any_matches(exclude, p)).len(),
{
    let files = all_hits(args)->0;
    lemma_excluded_count(files, exclude, files.len() as int);
    assert(files.take(files.len() as int) =~= files);
}

proof fn lemma_excluded_count(files: Seq<Seq<char>>, patterns: Seq<Seq<char>>, n: int)
    requires
        0 <= n <= files.len(),
    ensures
        unflagged(files.take(n), match_flags(files, patterns)).len() + files.take(n).filter(
            |p: Seq<char>| any_matches(patterns, p),
        ).len() == n,
    decreases n,
{
    let pred = |p: Seq<char>| any_matches(patterns, p);
    if n == 0 {
        assert(files.take(0) =~= Seq::<Seq<char>>::empty());
        reveal(Seq::filter);
        assert(files.take(0).filter(pred).len() == 0);
    } else {
        lemma_excluded_count(files, patterns, n - 1);
        let t = files.take(n - 1);
        assert(files.take(n) =~= t.push(files[n - 1]));
        assert(files.take(n).drop_last() =~= t);
        t.lemma_filter_push(files[n - 1], pred);
    }
}

/// A positive number in the environment decides how many tests run at once; without one it is as
/// many as the machine runs, but no more than eight, and four where that is unknown.
pub proof fn parallelism_is_asked_for_or_bounded(
    n: u32,
    asked: Option<Seq<char>>,
    available: Option<usize>,
)
    ensures
        n > 0 ==> parallelism_for(Some(decimal(n as int)), available) == n,
        parallelism_for(Some(decimal(0)), available) == parallelism_for(None, available),
        asked matches Some(s) ==> (parse_unsigned(s, u32::MAX as nat) matches Some(k) ==> (if k > 0 {
            parallelism_for(asked, available) == k
        } else {
            parallelism_for(asked, available) == parallelism_for(None, available)
        })),
        asked matches Some(s) ==> (parse_unsigned(s, u32::MAX as nat) is None ==> parallelism_for(
            asked,
            available,
        ) == parallelism_for(None, available)),
        available matches Some(a) ==> a <= u32::MAX ==> parallelism_for(None, available) == (if a
            <= 8 {
            a as int
        } else {
            8
        }),
        available is None ==> parallelism_for(None, available) == 4,
{
    crate::number::reading_undoes_writing(n as int, u32::MAX as nat);
    crate::number::reading_undoes_writing(0, u32::MAX as nat);
}

/// The chosen files stand in the order of their paths.
pub proof fn chosen_files_stand_in_order(
    s: Selection,
    args: Seq<PathArg>,
    filter: Option<Seq<char>>,
    exclude: Seq<Seq<char>>,
    i: int,
    j: int,
)
    requires
        is_choice(Ok(s), args, filter, exclude),
        0 <= i < j < s.files@.len(),
    ensures
        crate::order::path_order(s.files@[i]@, s.files@[j]@) <= 0,
{
    let all = texts(s.files@);
    assert(all[i] == s.files@[i]@ && all[j] == s.files@[j]@);
}

/// Where every argument could be read, the first malformed exclude pattern is what is complained
/// about.
pub proof fn the_first_malformed_pattern_is_named(
    r: Result<Selection, SelectError>,
    args: Seq<PathArg>,
    filter: Option<Seq<char>>,
    exclude: Seq<Seq<char>>,
    k: int,
)
    requires
        is_choice(r, args, filter, exclude),
        all_hits(args) is Some,
        0 <= k < exclude.len(),
        glob_fault(exclude[k]) is Some,
        forall|j: int| 0 <= j < k ==> glob_fault(#[trigger] exclude[j]) is None,
    ensures
        r matches Err(SelectError::BadExclude { pattern, fault }) && pattern@ == exclude[k]
            && glob_fault(exclude[k]) == Some((fault.position, fault.message@)),
{
    assert(first_fault(exclude, k));
    let c = choose|c: int| first_fault(exclude, c);
    if c < k {
        assert(glob_fault(exclude[c]) is None);
    } else if k < c {
        assert(glob_fault(exclude[k]) is None);
    }
}

/// Where every argument and every exclude pattern could be read, there is something to run exactly
/// when some file that was found is not excluded and is wanted; otherwise that is what is said.
pub proof fn no_tests_are_said_to_be_none(
    r: Result<Selection, SelectError>,
    args: Seq<PathArg>,
    filter: Option<Seq<char>>,
    exclude: Seq<Seq<char>>,
)
    requires
        is_choice(r, args, filter, exclude),
        all_hits(args) is Some,
        forall|j: int| 0 <= j < exclude.len() ==> glob_fault(#[trigger] exclude[j]) is None,
    ensures
        r is Ok <==> exists|p: Seq<char>|
            {
                &&& #[trigger] all_hits(args)->0.contains(p)
                &&& !any_matches(exclude, p)
                &&& filter matches Some(f) ==> contains_text(p, f)
            },
        r matches Err(e) ==> e is NoTests,
{
    let files = all_hits(args)->0;
    let kept = unflagged(files, match_flags(files, exclude));
    let chosen = wanted(kept, filter);
    assert(!(exists|k: int| first_fault(exclude, k)));
    assert(files.take(files.len() as int) =~= files);
    if r is Ok {
        let s = r->Ok_0;
        let all = texts(s.files@);
        broadcast use vstd::seq_lib::group_to_multiset_ensures;

        assert(all.len() == all.to_multiset().len());
        assert(chosen.len() == chosen.to_multiset().len());
        assert(all.contains(all[0]));
        chosen_files_are_the_wanted_ones(s, args, filter, exclude, all[0]);
        assert(files.contains(all[0]));
    } else if exists|p: Seq<char>|
        {
            &&& #[trigger] files.contains(p)
            &&& !any_matches(exclude, p)
            &&& filter matches Some(f) ==> contains_text(p, f)
        } {
        let p = choose|p: Seq<char>|
            {
                &&& #[trigger] files.contains(p)
                &&& !any_matches(exclude, p)
                &&& filter matches Some(f) ==> contains_text(p, f)
            };
        lemma_unflagged_members(files, exclude, files.len() as int, p);
        match filter {
            Some(f) => {
                let pred = |q: Seq<char>| contains_text(q, f);
                let i = choose|i: int| 0 <= i < kept.len() && kept[i] == p;
                kept.lemma_filter_contains(pred, i);
            },
            None => {},
        }
        assert(chosen.contains(p));
    }
}

/// Each error is told with what it is about: a pattern in quotes, or a path.
pub proof fn errors_are_told_with_their_subject(e: SelectError)
    ensures
        match e {
            SelectError::BadGlob { pattern, reason } => select_message(e)
                == "Invalid glob pattern '"@ + pattern@ + "': "@ + reason@,
            SelectError::WalkFailed { reason } => select_message(e) == reason@,
            SelectError::NotFound { path } => select_message(e) == "Path not found: "@ + path@,
            SelectError::BadExclude { pattern, fault } => select_message(e)
                == "Invalid --exclude pattern '"@ + pattern@ + "'"@,
            SelectError::NoTests { skipped } => select_message(e)
                == "No tests found matching the path/filter."@,
        },
{
}

} // verus!

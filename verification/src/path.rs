//! Paths in the Unix form: `/` separates, a leading `/` is the root, and text is UTF-8.
//!
//! Repeated separators and `.` components do not count, except for a leading `.`, and neither
//! does a trailing separator.
use vstd::prelude::*;

use crate::text::{chars_of, glue, part_of, same_text, without};

verus! {

/// The path starts at the root.
pub open spec fn rooted(s: Seq<char>) -> bool {
    s.len() > 0 && s[0] == '/'
}

/// `rel` taken relative to `base`; a rooted `rel` stands for itself.
pub open spec fn joined(base: Seq<char>, rel: Seq<char>) -> Seq<char> {
    if rooted(rel) {
        rel
    } else if base.len() == 0 || base.last() == '/' {
        base + rel
    } else {
        base + seq!['/'] + rel
    }
}

/// The path without trailing separators and trailing `.` components. The root stays.
pub open spec fn trim_tail(s: Seq<char>) -> Seq<char>
    decreases s.len(),
{
    if s.len() > 1 && s.last() == '/' {
        trim_tail(s.drop_last())
    } else if s.len() > 1 && s.last() == '.' && s[s.len() - 2] == '/' {
        trim_tail(s.drop_last())
    } else {
        s
    }
}

/// The position behind the last separator.
pub open spec fn name_start(s: Seq<char>) -> int
    decreases s.len(),
{
    if s.len() == 0 || s.last() == '/' {
        s.len() as int
    } else {
        name_start(s.drop_last())
    }
}

/// The last component, where that is a name and not the root, `.` or `..`.
pub open spec fn file_name(s: Seq<char>) -> Option<Seq<char>> {
    let t = trim_tail(s);
    let n = t.skip(name_start(t));
    if n.len() == 0 || n == seq!['.'] || n == seq!['.', '.'] {
        None
    } else {
        Some(n)
    }
}

/// The position of the last dot, or -1.
pub open spec fn last_dot(n: Seq<char>) -> int
    decreases n.len(),
{
    if n.len() == 0 {
        -1
    } else if n.last() == '.' {
        n.len() - 1
    } else {
        last_dot(n.drop_last())
    }
}

/// A file name without its extension. A dot in front starts no extension.
pub open spec fn stem_of(n: Seq<char>) -> Seq<char> {
    if last_dot(n) <= 0 {
        n
    } else {
        n.take(last_dot(n))
    }
}

/// What stands behind the last dot of a file name.
pub open spec fn extension_of(n: Seq<char>) -> Option<Seq<char>> {
    if last_dot(n) <= 0 {
        None
    } else {
        Some(n.skip(last_dot(n) + 1))
    }
}

/// The file name without its extension.
pub open spec fn file_stem(s: Seq<char>) -> Option<Seq<char>> {
    match file_name(s) {
        Some(n) => Some(stem_of(n)),
        None => None,
    }
}

/// The extension of the file name.
pub open spec fn extension(s: Seq<char>) -> Option<Seq<char>> {
    match file_name(s) {
        Some(n) => extension_of(n),
        None => None,
    }
}

/// The path with `ext` in place of its extension. Without a file name it stays as it is.
pub open spec fn with_extension(s: Seq<char>, ext: Seq<char>) -> Seq<char> {
    match file_name(s) {
        Some(n) => {
            let t = trim_tail(s);
            let bare = t.take(name_start(t)) + stem_of(n);
            if ext.len() == 0 {
                bare
            } else {
                bare + seq!['.'] + ext
            }
        },
        None => s,
    }
}

/// The path without its last component.
pub open spec fn parent(s: Seq<char>) -> Option<Seq<char>> {
    let t = trim_tail(s);
    if t.len() == 0 || t == seq!['/'] {
        None
    } else {
        Some(trim_tail(t.take(name_start(t))))
    }
}

// ---------------------------------------------------------------------------------------------
// Facts
// ---------------------------------------------------------------------------------------------
pub proof fn lemma_name_start(s: Seq<char>)
    ensures
        0 <= name_start(s) <= s.len(),
        forall|i: int| name_start(s) <= i < s.len() ==> s[i] != '/',
        name_start(s) > 0 ==> s[name_start(s) - 1] == '/',
    decreases s.len(),
{
    if s.len() > 0 && s.last() != '/' {
        let t = s.drop_last();
        lemma_name_start(t);
        assert forall|i: int| name_start(s) <= i < s.len() implies s[i] != '/' by {
            if i < t.len() {
                assert(t[i] == s[i]);
            }
        }
    }
}

pub proof fn lemma_last_dot(n: Seq<char>)
    ensures
        -1 <= last_dot(n) < n.len(),
        last_dot(n) >= 0 ==> n[last_dot(n)] == '.',
        forall|i: int| last_dot(n) < i < n.len() ==> n[i] != '.',
    decreases n.len(),
{
    if n.len() > 0 && n.last() != '.' {
        let t = n.drop_last();
        lemma_last_dot(t);
        assert forall|i: int| last_dot(n) < i < n.len() implies n[i] != '.' by {
            if i < t.len() {
                assert(t[i] == n[i]);
            }
        }
    }
}

/// Only one position is the last dot.
proof fn lemma_last_dot_is(n: Seq<char>, d: int)
    requires
        -1 <= d < n.len(),
        d >= 0 ==> n[d] == '.',
        forall|i: int| d < i < n.len() ==> n[i] != '.',
    ensures
        last_dot(n) == d,
{
    lemma_last_dot(n);
}

/// Only one position is behind the last separator.
proof fn lemma_name_start_is(s: Seq<char>, k: int)
    requires
        0 <= k <= s.len(),
        forall|i: int| k <= i < s.len() ==> s[i] != '/',
        k > 0 ==> s[k - 1] == '/',
    ensures
        name_start(s) == k,
{
    lemma_name_start(s);
}

pub proof fn lemma_trim_tail(s: Seq<char>)
    ensures
        trim_tail(s).len() <= s.len(),
        trim_tail(s) == s.take(trim_tail(s).len() as int),
    decreases s.len(),
{
    if s.len() > 1 && (s.last() == '/' || (s.last() == '.' && s[s.len() - 2] == '/')) {
        lemma_trim_tail(s.drop_last());
        let k = trim_tail(s).len() as int;
        assert(s.drop_last().take(k) =~= s.take(k));
    } else {
        assert(s.take(s.len() as int) =~= s);
    }
}

// ---------------------------------------------------------------------------------------------
// Executable forms
// ---------------------------------------------------------------------------------------------
/// `rel` taken relative to `base`.
pub fn join(base: &str, rel: &str) -> (r: String)
    ensures
        r@ == joined(base@, rel@),
{
    let b: Vec<char> = chars_of(base);
    let c: Vec<char> = chars_of(rel);
    if c.len() > 0 && c[0] == '/' {
        rel.to_owned()
    } else if b.len() == 0 || b[b.len() - 1] == '/' {
        glue(base, rel)
    } else {
        proof {
            reveal_strlit("/");
        }
        let head: String = glue(base, "/");
        assert("/"@ =~= seq!['/']);
        glue(&head, rel)
    }
}

/// The length of the path without its trailing separators and `.` components.
fn tail_end(s: &Vec<char>, end: usize) -> (r: usize)
    requires
        end <= s@.len(),
    ensures
        r <= end,
        trim_tail(s@.take(end as int)) == s@.take(r as int),
{
    let mut n: usize = end;
    while n > 1 && (s[n - 1] == '/' || (s[n - 1] == '.' && s[n - 2] == '/'))
        invariant
            n <= end <= s@.len(),
            trim_tail(s@.take(end as int)) == trim_tail(s@.take(n as int)),
        decreases n,
    {
        assert(s@.take(n as int).drop_last() =~= s@.take(n - 1));
        n -= 1;
    }
    n
}

/// The position behind the last separator before `end`.
fn start_of_name(s: &Vec<char>, end: usize) -> (r: usize)
    requires
        end <= s@.len(),
    ensures
        r <= end,
        name_start(s@.take(end as int)) == r,
{
    let mut k: usize = end;
    while k > 0 && s[k - 1] != '/'
        invariant
            k <= end <= s@.len(),
            forall|i: int| k <= i < end ==> s@[i] != '/',
        decreases k,
    {
        k -= 1;
    }
    proof {
        lemma_name_start_is(s@.take(end as int), k as int);
    }
    k
}

/// Where the file name stands in the path, if it has one.
fn name_span(s: &Vec<char>) -> (r: Option<(usize, usize)>)
    ensures
        match r {
            Some((a, b)) => {
                &&& a < b <= s@.len()
                &&& trim_tail(s@) == s@.take(b as int)
                &&& name_start(trim_tail(s@)) == a
                &&& file_name(s@) == Some(s@.subrange(a as int, b as int))
            },
            None => file_name(s@) is None,
        },
{
    let len: usize = s.len();
    let b: usize = tail_end(s, len);
    let a: usize = start_of_name(s, b);
    let ghost t = trim_tail(s@);
    let ghost n = t.skip(name_start(t));
    proof {
        assert(s@.take(len as int) =~= s@);
        assert(n =~= s@.subrange(a as int, b as int));
    }
    if a == b {
        return None;
    }
    if b - a == 1 && s[a] == '.' {
        assert(n =~= seq!['.']);
        return None;
    }
    if b - a == 2 && s[a] == '.' && s[a + 1] == '.' {
        assert(n =~= seq!['.', '.']);
        return None;
    }
    proof {
        assert(n.len() == b - a);
        assert(n[0] == s@[a as int]);
        if b - a == 2 {
            assert(n[1] == s@[a + 1]);
        }
    }
    Some((a, b))
}

/// The position of the last dot of a name that stands from `a` to `b`, if it starts an extension.
fn dot_in(s: &Vec<char>, a: usize, b: usize) -> (r: Option<usize>)
    requires
        a <= b <= s@.len(),
    ensures
        match r {
            Some(d) => a < d < b && last_dot(s@.subrange(a as int, b as int)) == d - a,
            None => last_dot(s@.subrange(a as int, b as int)) <= 0,
        },
{
    let ghost n = s@.subrange(a as int, b as int);
    let mut k: usize = b;
    while k > a
        invariant
            a <= k <= b <= s@.len(),
            n == s@.subrange(a as int, b as int),
            forall|i: int| k - a <= i < b - a ==> n[i] != '.',
        decreases k,
    {
        if s[k - 1] == '.' {
            assert(n[k - 1 - a] == '.');
            proof {
                lemma_last_dot_is(n, k - 1 - a);
            }
            if k - 1 > a {
                return Some(k - 1);
            }
            return None;
        }
        assert(n[k - 1 - a] == s@[k - 1]);
        k -= 1;
    }
    proof {
        lemma_last_dot_is(n, -1);
    }
    None
}

/// The last component, where that is a name.
pub fn get_file_name(s: &str) -> (r: Option<String>)
    ensures
        match r {
            Some(n) => file_name(s@) == Some(n@),
            None => file_name(s@) is None,
        },
{
    let c: Vec<char> = chars_of(s);
    match name_span(&c) {
        Some((a, b)) => Some(part_of(s, a, b)),
        None => None,
    }
}

/// The file name without its extension.
pub fn get_file_stem(s: &str) -> (r: Option<String>)
    ensures
        match r {
            Some(n) => file_stem(s@) == Some(n@),
            None => file_stem(s@) is None,
        },
{
    let c: Vec<char> = chars_of(s);
    match name_span(&c) {
        Some((a, b)) => {
            let ghost n = s@.subrange(a as int, b as int);
            match dot_in(&c, a, b) {
                Some(d) => {
                    assert(n.take(d - a) =~= s@.subrange(a as int, d as int));
                    Some(part_of(s, a, d))
                },
                None => Some(part_of(s, a, b)),
            }
        },
        None => None,
    }
}

/// Whether the path's extension is `ext`.
pub fn has_extension(s: &str, ext: &str) -> (r: bool)
    ensures
        r == (extension(s@) == Some(ext@)),
{
    let c: Vec<char> = chars_of(s);
    match name_span(&c) {
        Some((a, b)) => {
            let ghost n = s@.subrange(a as int, b as int);
            match dot_in(&c, a, b) {
                Some(d) => {
                    assert(n.skip(d - a + 1) =~= s@.subrange(d + 1, b as int));
                    let found: String = part_of(s, d + 1, b);
                    same_text(&found, ext)
                },
                None => false,
            }
        },
        None => false,
    }
}

/// The path with `ext` in place of its extension.
pub fn set_extension(s: &str, ext: &str) -> (r: String)
    ensures
        r@ == with_extension(s@, ext@),
{
    let c: Vec<char> = chars_of(s);
    match name_span(&c) {
        Some((a, b)) => {
            let ghost t = trim_tail(s@);
            let ghost n = s@.subrange(a as int, b as int);
            let end: usize = match dot_in(&c, a, b) {
                Some(d) => d,
                None => b,
            };
            assert(t.take(a as int) + stem_of(n) =~= s@.take(end as int));
            let bare: String = part_of(s, 0, end);
            assert(bare@ =~= s@.take(end as int));
            if ext.is_empty() {
                assert(ext@.len() == 0);
                bare
            } else {
                proof {
                    reveal_strlit(".");
                }
                let dotted: String = glue(&bare, ".");
                assert("."@ =~= seq!['.']);
                glue(&dotted, ext)
            }
        },
        None => s.to_owned(),
    }
}

/// The path without its last component.
pub fn get_parent(s: &str) -> (r: Option<String>)
    ensures
        match r {
            Some(p) => parent(s@) == Some(p@),
            None => parent(s@) is None,
        },
{
    let c: Vec<char> = chars_of(s);
    let len: usize = c.len();
    let b: usize = tail_end(&c, len);
    let ghost t = trim_tail(s@);
    assert(c@.take(len as int) =~= c@);
    if b == 0 {
        return None;
    }
    if b == 1 && c[0] == '/' {
        assert(t =~= seq!['/']);
        return None;
    }
    proof {
        assert(t[0] == s@[0]);
        if b == 1 {
            assert(t != seq!['/']);
        } else {
            assert(t.len() != seq!['/'].len());
        }
    }
    let a: usize = start_of_name(&c, b);
    assert(t.take(a as int) =~= s@.take(a as int));
    let e: usize = tail_end(&c, a);
    assert(s@.subrange(0, e as int) =~= s@.take(e as int));
    Some(part_of(s, 0, e))
}

// ---------------------------------------------------------------------------------------------
// What names and extensions are
// ---------------------------------------------------------------------------------------------
/// The text ends in a separator, or there is none.
pub open spec fn is_dir_part(dir: Seq<char>) -> bool {
    dir.len() == 0 || dir[dir.len() - 1] == '/'
}

/// The text is a name: not empty, without a separator, and neither `.` nor `..`.
pub open spec fn is_name(n: Seq<char>) -> bool {
    &&& n.len() > 0
    &&& without(n, '/')
    &&& n != seq!['.']
    &&& n != seq!['.', '.']
}

proof fn lemma_tail_is_name(dir: Seq<char>, n: Seq<char>)
    requires
        is_dir_part(dir),
        n.len() > 0,
        without(n, '/'),
        n != seq!['.'] || dir.len() == 0,
    ensures
        trim_tail(dir + n) == dir + n,
        name_start(dir + n) == dir.len(),
        (dir + n).skip(dir.len() as int) == n,
        (dir + n).take(dir.len() as int) == dir,
{
    let s = dir + n;
    assert(s.last() == n.last());
    if s.len() > 1 && s.last() == '.' && s[s.len() - 2] == '/' {
        if n.len() > 1 {
            assert(s[s.len() - 2] == n[n.len() - 2]);
        } else {
            assert(n =~= seq!['.']);
        }
    }
    lemma_name_start_is(s, dir.len() as int);
    assert(s.skip(dir.len() as int) =~= n);
    assert(s.take(dir.len() as int) =~= dir);
}

/// The file name of a path is what stands behind the last separator.
pub proof fn names_stand_behind_the_last_separator(dir: Seq<char>, n: Seq<char>)
    requires
        is_dir_part(dir),
        is_name(n),
    ensures
        file_name(dir + n) == Some(n),
{
    lemma_tail_is_name(dir, n);
}

/// The empty path, the root, `.`, and a path that ends in `..` have no file name.
pub proof fn some_paths_have_no_name(dir: Seq<char>)
    requires
        is_dir_part(dir),
    ensures
        file_name(Seq::empty()) is None,
        file_name(seq!['/']) is None,
        file_name(seq!['.']) is None,
        file_name(seq!['/', '.']) is None,
        file_name(dir + seq!['.', '.']) is None,
        forall|s: Seq<char>, ext: Seq<char>|
            file_name(s) is None ==> #[trigger] with_extension(s, ext) == s,
        forall|s: Seq<char>|
            file_name(s) is None ==> #[trigger] extension(s) is None && file_stem(s) is None,
{
    let dots = seq!['.', '.'];
    assert(dots != seq!['.']) by {
        assert(dots.len() == 2 && seq!['.'].len() == 1);
    }
    lemma_tail_is_name(dir, dots);
    lemma_tail_is_name(Seq::empty(), seq!['.']);
    assert(Seq::<char>::empty() + seq!['.'] =~= seq!['.']);
    assert(trim_tail(seq!['/']) == seq!['/']);
    assert(name_start(seq!['/']) == 1);
    let below = seq!['/', '.'];
    assert(below.drop_last() =~= seq!['/']);
    assert(trim_tail(below) == trim_tail(below.drop_last()));
}

/// A separator, or a separator and a `.`, at the end of a path changes neither its name nor its
/// parent.
pub proof fn trailing_separators_do_not_count(s: Seq<char>, ext: Seq<char>)
    requires
        s.len() > 0,
    ensures
        file_name(s + seq!['/']) == file_name(s),
        file_name(s + seq!['/', '.']) == file_name(s),
        parent(s + seq!['/']) == parent(s),
        parent(s + seq!['/', '.']) == parent(s),
        file_name(s) is Some ==> with_extension(s + seq!['/'], ext) == with_extension(s, ext),
        file_name(s) is Some ==> with_extension(s + seq!['/', '.'], ext) == with_extension(s, ext),
        extension(s + seq!['/']) == extension(s),
        extension(s + seq!['/', '.']) == extension(s),
        file_stem(s + seq!['/']) == file_stem(s),
        file_stem(s + seq!['/', '.']) == file_stem(s),
{
    let a = s + seq!['/'];
    let b = s + seq!['/', '.'];
    assert(a.drop_last() =~= s);
    assert(b.drop_last() =~= a);
    assert(b[b.len() - 2] == '/');
    assert(trim_tail(a) == trim_tail(s));
    assert(trim_tail(b) == trim_tail(a));
}

/// The extension is what stands behind the last dot of the name, and the stem what stands in front
/// of it; setting an extension replaces the one and keeps the other, and the directory.
pub proof fn extensions_stand_behind_the_last_dot(
    dir: Seq<char>,
    stem: Seq<char>,
    ext: Seq<char>,
    new: Seq<char>,
)
    requires
        is_dir_part(dir),
        stem.len() > 0,
        without(stem, '/'),
        without(ext, '/'),
        without(ext, '.'),
        stem != seq!['.'] || ext.len() > 0,
    ensures
        file_name(dir + stem + seq!['.'] + ext) == Some(stem + seq!['.'] + ext),
        file_stem(dir + stem + seq!['.'] + ext) == Some(stem),
        extension(dir + stem + seq!['.'] + ext) == Some(ext),
        new.len() > 0 ==> with_extension(dir + stem + seq!['.'] + ext, new) == dir + stem + seq!['.']
            + new,
        with_extension(dir + stem + seq!['.'] + ext, Seq::empty()) == dir + stem,
{
    let n = stem + seq!['.'] + ext;
    assert(dir + stem + seq!['.'] + ext =~= dir + n);
    assert(n[stem.len() as int] == '.');
    assert(n.len() >= 2);
    if n == seq!['.', '.'] {
        assert(n.len() == 2);
        assert(ext.len() == 0);
        assert(stem =~= seq![n[0]]);
    }
    assert(without(n, '/'));
    assert(n != seq!['.']) by {
        assert(seq!['.'].len() == 1);
    }
    lemma_tail_is_name(dir, n);
    lemma_last_dot_is(n, stem.len() as int);
    assert(n.take(stem.len() as int) =~= stem);
    assert(n.skip((stem.len() + 1) as int) =~= ext);
    assert(dir + stem + seq!['.'] + new =~= (dir + stem) + seq!['.'] + new);
}

/// A name without a dot behind its first character has no extension; setting one adds it.
pub proof fn names_without_a_dot_have_no_extension(dir: Seq<char>, n: Seq<char>, new: Seq<char>)
    requires
        is_dir_part(dir),
        is_name(n),
        forall|i: int| 1 <= i < n.len() ==> n[i] != '.',
    ensures
        file_stem(dir + n) == Some(n),
        extension(dir + n) is None,
        new.len() > 0 ==> with_extension(dir + n, new) == dir + n + seq!['.'] + new,
{
    lemma_tail_is_name(dir, n);
    lemma_last_dot(n);
    assert(last_dot(n) <= 0);
}

/// The parent of a path is the path without its last component: the directory, without the
/// separator behind it.
pub proof fn parents_are_the_directory(dir: Seq<char>, n: Seq<char>)
    requires
        n.len() > 0,
        without(n, '/'),
        n != seq!['.'],
    ensures
        parent(n) == Some(Seq::<char>::empty()),
        parent(seq!['/'] + n) == Some(seq!['/']),
        dir.len() > 0 && dir.last() != '/' && !(dir.len() > 1 && dir.last() == '.' && dir[dir.len()
            - 2] == '/') ==> parent(dir + seq!['/'] + n) == Some(dir),
{
    let e = Seq::<char>::empty();
    assert(e + n =~= n);
    lemma_tail_is_name(e, n);
    lemma_tail_is_name(seq!['/'], n);
    assert((seq!['/'] + n).len() > 1);
    let d = dir + seq!['/'];
    lemma_tail_is_name(d, n);
    assert(d.drop_last() =~= dir);
    assert((d + n).len() > 1 && seq!['/'].len() == 1);
    assert(n[0] != '/');
    if dir.len() > 0 {
        assert(trim_tail(d) == trim_tail(dir));
    }
}

/// The empty path and the root have no parent.
pub proof fn the_root_has_no_parent()
    ensures
        parent(Seq::empty()) is None,
        parent(seq!['/']) is None,
{
}

/// A rooted path stands for itself wherever it is joined to; any other is put behind the base, with
/// one separator between the two.
pub proof fn joined_paths_follow_the_base(base: Seq<char>, rel: Seq<char>)
    ensures
        rel.len() > 0 && rel[0] == '/' ==> joined(base, rel) == rel,
        rel.len() == 0 || rel[0] != '/' ==> {
            &&& base.is_prefix_of(joined(base, rel))
            &&& rel.is_suffix_of(joined(base, rel))
            &&& base.len() > 0 && base[base.len() - 1] != '/' ==> joined(base, rel) == base + seq![
                '/',
            ] + rel
            &&& base.len() == 0 || base[base.len() - 1] == '/' ==> joined(base, rel).len()
                == base.len() + rel.len()
        },
{
    let j = joined(base, rel);
    if rel.len() == 0 || rel[0] != '/' {
        assert(j.subrange(0, base.len() as int) =~= base);
        assert(j.subrange(j.len() - rel.len(), j.len() as int) =~= rel);
    }
}

/// A path has an extension exactly when what stands behind its last separator ends in a dot and
/// the extension, with something in front of them.
#[verifier::spinoff_prover]
#[verifier::rlimit(50)]
pub proof fn extensions_go_by_the_end(dir: Seq<char>, n: Seq<char>, ext: Seq<char>)
    requires
        is_dir_part(dir),
        n.len() > 0,
        without(n, '/'),
        n != seq!['.'],
        ext.len() > 0,
        without(ext, '.'),
    ensures
        extension(dir + n) == Some(ext) <==> n.len() > ext.len() + 1 && (seq!['.']
            + ext).is_suffix_of(n),
{
    lemma_tail_is_name(dir, n);
    let end = seq!['.'] + ext;
    let k = n.len() - ext.len() - 1;
    lemma_last_dot(n);
    if n.len() > ext.len() + 1 && end.is_suffix_of(n) {
        assert(n.subrange(k, n.len() as int) == end);
        assert(n[k] == end[0]);
        assert forall|i: int| k < i < n.len() implies n[i] != '.' by {
            assert(n[i] == n.subrange(k, n.len() as int)[i - k]);
            assert(end[i - k] == ext[i - k - 1]);
        }
        lemma_last_dot_is(n, k);
        assert(n.skip(k + 1) =~= ext) by {
            assert forall|i: int| 0 <= i < ext.len() implies n.skip(k + 1)[i] == ext[i] by {
                assert(n[k + 1 + i] == n.subrange(k, n.len() as int)[i + 1]);
            }
        }
    }
    if extension(dir + n) == Some(ext) {
        let d = last_dot(n);
        assert(n.skip(d + 1) == ext);
        assert(d == k);
        assert(n.subrange(k, n.len() as int) =~= end) by {
            assert forall|i: int| 0 <= i < end.len() implies n.subrange(k, n.len() as int)[i]
                == end[i] by {
                if i > 0 {
                    assert(n[k + i] == n.skip(d + 1)[i - 1]);
                }
            }
        }
    }
}

/// Separators that are repeated, and `.` components between them, do not count for the directory
/// that a path lies in.
pub proof fn repeated_separators_do_not_count(dir: Seq<char>, n: Seq<char>)
    requires
        dir.len() > 0,
        n.len() > 0,
        without(n, '/'),
        n != seq!['.'],
    ensures
        parent(dir + seq!['/', '/'] + n) == parent(dir + seq!['/'] + n),
        parent(dir + seq!['/', '.', '/'] + n) == parent(dir + seq!['/'] + n),
{
    let a = dir + seq!['/'];
    let b = dir + seq!['/', '/'];
    let c = dir + seq!['/', '.', '/'];
    let d = dir + seq!['/', '.'];
    lemma_tail_is_name(a, n);
    lemma_tail_is_name(b, n);
    lemma_tail_is_name(c, n);
    assert(b.drop_last() =~= a);
    assert(c.drop_last() =~= d);
    assert(d.drop_last() =~= a);
    assert(d[d.len() - 2] == '/');
    assert(trim_tail(b) == trim_tail(a));
    assert(trim_tail(d) == trim_tail(a));
    assert(trim_tail(c) == trim_tail(d));
    assert((a + n).len() > 1 && (b + n).len() > 1 && (c + n).len() > 1);
    assert(seq!['/'].len() == 1);
}

} // verus!

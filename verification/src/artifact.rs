//! The files of a compile: the artifact in the cache, the temporary file that the compiler
//! writes, and the lock.
use vstd::prelude::*;

use crate::number::{decimal, digit_char, numeral, numeral_is_injective, to_decimal, to_numeral};
use crate::path::{
    file_name, file_stem, get_file_stem, is_dir_part, join, joined, lemma_last_dot,
    lemma_name_start, rooted,
    set_extension, trim_tail, with_extension,
};
use crate::text::{glue, without};

verus! {

/// The extension of the compiler's output. The compiler picks its emitter by it.
pub open spec fn output_suffix(wat: bool) -> Seq<char> {
    if wat {
        ".wat"@
    } else {
        ".wasm"@
    }
}

/// The source's part of an artifact's name.
pub open spec fn source_stem(source: Seq<char>) -> Seq<char> {
    match file_stem(source) {
        Some(stem) => stem,
        None => Seq::empty(),
    }
}

/// The name that an artifact shares with its temporary files.
pub open spec fn artifact_base(source: Seq<char>, key: u64) -> Seq<char> {
    source_stem(source) + "_"@ + numeral(key as nat, 16)
}

/// The file name of an artifact.
pub open spec fn artifact_name(source: Seq<char>, key: u64, wat: bool) -> Seq<char> {
    artifact_base(source, key) + output_suffix(wat)
}

/// The file name of the temporary file of process `pid`.
pub open spec fn temp_name(source: Seq<char>, key: u64, wat: bool, pid: u32) -> Seq<char> {
    artifact_base(source, key) + ".tmp-"@ + decimal(pid as int) + output_suffix(wat)
}

/// The files of a compile.
#[derive(Debug)]
pub struct ArtifactPaths {
    pub cached: String,
    pub temp: String,
    pub lock: String,
}

/// The files of a compile of `source` with this key, by process `pid`.
pub fn artifact_paths(cache_dir: &str, source: &str, key: u64, wat: bool, pid: u32) -> (r:
    ArtifactPaths)
    ensures
        r.cached@ == joined(cache_dir@, artifact_name(source@, key, wat)),
        r.temp@ == joined(cache_dir@, temp_name(source@, key, wat, pid)),
        r.lock@ == with_extension(r.cached@, "lock"@),
{
    let stem: String = match get_file_stem(source) {
        Some(s) => s,
        None => String::new(),
    };
    let head: String = glue(&stem, "_");
    let hex: String = to_numeral(key, 16);
    let base: String = glue(&head, &hex);
    let suffix: &str = if wat {
        ".wat"
    } else {
        ".wasm"
    };
    let name: String = glue(&base, suffix);
    let cached: String = join(cache_dir, &name);
    let tmp: String = glue(&base, ".tmp-");
    let id: String = to_decimal(pid as u64);
    let tmp_id: String = glue(&tmp, &id);
    let tmp_name: String = glue(&tmp_id, suffix);
    let temp: String = join(cache_dir, &tmp_name);
    let lock: String = set_extension(&cached, "lock");
    ArtifactPaths { cached, temp, lock }
}

proof fn lemma_take_front(p: Seq<char>, x: Seq<char>, q: Seq<char>, y: Seq<char>)
    requires
        p + x == q + y,
        x.len() == y.len(),
    ensures
        p == q,
        x == y,
{
    assert((p + x).len() == p.len() + x.len() && (q + y).len() == q.len() + y.len());
    assert(p =~= (p + x).take(p.len() as int));
    assert(q =~= (q + y).take(p.len() as int));
    assert(x =~= (p + x).skip(p.len() as int));
    assert(y =~= (q + y).skip(p.len() as int));
}

proof fn lemma_take_back(p: Seq<char>, x: Seq<char>, y: Seq<char>)
    requires
        p + x == p + y,
    ensures
        x == y,
{
    assert(x =~= (p + x).skip(p.len() as int));
    assert(y =~= (p + y).skip(p.len() as int));
}

/// A temporary file is never the artifact itself, and two processes never share one.
pub proof fn temp_files_are_private(source: Seq<char>, key: u64, wat: bool, p: u32, q: u32)
    ensures
        temp_name(source, key, wat, p) != artifact_name(source, key, wat),
        temp_name(source, key, wat, p) == temp_name(source, key, wat, q) ==> p == q,
{
    reveal_strlit(".tmp-");
    assert(".tmp-"@.len() == 5);
    assert(temp_name(source, key, wat, p).len() > artifact_name(source, key, wat).len());
    if temp_name(source, key, wat, p) == temp_name(source, key, wat, q) {
        let head = artifact_base(source, key) + ".tmp-"@;
        lemma_take_front(
            head + decimal(p as int),
            output_suffix(wat),
            head + decimal(q as int),
            output_suffix(wat),
        );
        lemma_take_back(head, decimal(p as int), decimal(q as int));
        numeral_is_injective(p as nat, q as nat, 10);
    }
}

proof fn lemma_numeral_has_no_line(n: nat, i: int)
    requires
        0 <= i < numeral(n, 16).len(),
    ensures
        numeral(n, 16)[i] != '_',
    decreases n,
{
    if n >= 16 && i < numeral(n, 16).len() - 1 {
        lemma_numeral_has_no_line(n / 16, i);
    } else {
        let d = (n % 16) as int;
        assert(digit_char(d) as int == if d < 10 { d + 0x30 } else { d - 10 + 0x61 });
    }
}

proof fn lemma_bases_differ(source: Seq<char>, k: u64, other: Seq<char>, m: u64)
    requires
        artifact_base(source, k) == artifact_base(other, m),
        numeral(k as nat, 16).len() <= numeral(m as nat, 16).len(),
    ensures
        k == m,
        source_stem(source) == source_stem(other),
{
    reveal_strlit("_");
    let a = numeral(k as nat, 16);
    let b = numeral(m as nat, 16);
    let p = source_stem(source) + "_"@;
    let q = source_stem(other) + "_"@;
    let n = artifact_base(source, k).len();
    assert("_"@.len() == 1 && "_"@[0] == '_');
    assert(artifact_base(source, k) == p + a && artifact_base(other, m) == q + b);
    if a.len() < b.len() {
        let at = p.len() - 1;
        assert((p + a)[at] == '_');
        assert((q + b)[at] == b[at - q.len()]);
        lemma_numeral_has_no_line(m as nat, at - q.len());
    }
    lemma_take_front(p, a, q, b);
    lemma_take_front(source_stem(source), "_"@, source_stem(other), "_"@);
    numeral_is_injective(k as nat, m as nat, 16);
}

proof fn lemma_stem_has_no_separator(source: Seq<char>)
    ensures
        forall|i: int| 0 <= i < source_stem(source).len() ==> source_stem(source)[i] != '/',
{
    match file_name(source) {
        Some(n) => {
            let t = trim_tail(source);
            lemma_name_start(t);
            lemma_last_dot(n);
            let stem = source_stem(source);
            assert forall|i: int| 0 <= i < stem.len() implies stem[i] != '/' by {
                assert(stem[i] == n[i]);
            }
        },
        None => {},
    }
}

/// Whatever two compiles have the same artifact in one cache, they have the same key and form, and
/// their sources share a stem. So compiles with different keys never overwrite one another.
pub proof fn equal_artifacts_have_equal_keys(
    cache_dir: Seq<char>,
    source: Seq<char>,
    k: u64,
    wat: bool,
    other: Seq<char>,
    m: u64,
    other_wat: bool,
)
    requires
        joined(cache_dir, artifact_name(source, k, wat)) == joined(
            cache_dir,
            artifact_name(other, m, other_wat),
        ),
    ensures
        k == m,
        wat == other_wat,
        source_stem(source) == source_stem(other),
{
    reveal_strlit("_");
    reveal_strlit(".wat");
    reveal_strlit(".wasm");
    let a = artifact_name(source, k, wat);
    let b = artifact_name(other, m, other_wat);
    assert("_"@.len() == 1 && "_"@[0] == '_');
    assert(".wat"@.len() == 4 && ".wat"@[3] == 't');
    assert(".wasm"@.len() == 5 && ".wasm"@[4] == 'm');
    lemma_stem_has_no_separator(source);
    lemma_stem_has_no_separator(other);
    assert(a[0] == if source_stem(source).len() > 0 { source_stem(source)[0] } else { '_' });
    assert(b[0] == if source_stem(other).len() > 0 { source_stem(other)[0] } else { '_' });
    assert(!rooted(a) && !rooted(b));
    let x = joined(cache_dir, a);
    let y = joined(cache_dir, b);
    let n = (x.len() - a.len()) as int;
    assert(a =~= x.skip(n));
    assert(b =~= y.skip(n));
    assert(a == b);
    assert(a.last() == if wat { 't' } else { 'm' });
    assert(b.last() == if other_wat { 't' } else { 'm' });
    lemma_take_front(
        artifact_base(source, k),
        output_suffix(wat),
        artifact_base(other, m),
        output_suffix(other_wat),
    );
    if numeral(k as nat, 16).len() <= numeral(m as nat, 16).len() {
        lemma_bases_differ(source, k, other, m);
    } else {
        lemma_bases_differ(other, m, source, k);
    }
}

/// The files of a compile are named after the source's stem and the key, whatever the source's
/// directory and extension are: the artifact and the temporary file end as the form asks, and the
/// lock stands beside the artifact.
pub proof fn artifacts_are_named_after_their_source(
    dir: Seq<char>,
    stem: Seq<char>,
    ext: Seq<char>,
    key: u64,
    wat: bool,
    pid: u32,
    cache_dir: Seq<char>,
)
    requires
        is_dir_part(dir),
        stem.len() > 0,
        without(stem, '/'),
        stem != seq!['.'] || ext.len() > 0,
        without(ext, '/'),
        without(ext, '.'),
        is_dir_part(cache_dir),
    ensures
        ({
            let source = dir + stem + seq!['.'] + ext;
            let hex = numeral(key as nat, 16);
            let end = if wat {
                ".wat"@
            } else {
                ".wasm"@
            };
            &&& artifact_name(source, key, wat) == stem + seq!['_'] + hex + end
            &&& temp_name(source, key, wat, pid) == stem + seq!['_'] + hex + ".tmp-"@ + decimal(
                pid as int,
            ) + end
            &&& with_extension(joined(cache_dir, artifact_name(source, key, wat)), "lock"@)
                == cache_dir + stem + seq!['_'] + hex + ".lock"@
        }),
{
    reveal_strlit("_");
    reveal_strlit(".wat");
    reveal_strlit(".wasm");
    reveal_strlit(".lock");
    reveal_strlit("lock");
    crate::path::extensions_stand_behind_the_last_dot(dir, stem, ext, "lock"@);
    let source = dir + stem + seq!['.'] + ext;
    let hex = numeral(key as nat, 16);
    let base = stem + seq!['_'] + hex;
    assert("_"@ =~= seq!['_']);
    assert(source_stem(source) == stem);
    let end = if wat {
        seq!['w', 'a', 't']
    } else {
        seq!['w', 'a', 's', 'm']
    };
    assert(output_suffix(wat) =~= seq!['.'] + end);
    let name = artifact_name(source, key, wat);
    assert(name =~= base + seq!['.'] + end);
    assert(without(base, '/')) by {
        assert forall|i: int| 0 <= i < base.len() implies base[i] != '/' by {
            if i < stem.len() {
                assert(base[i] == stem[i]);
            } else if i > stem.len() {
                assert(base[i] == hex[i - stem.len() - 1]);
                lemma_numeral_has_no_separator(key as nat, i - stem.len() - 1);
            }
        }
    }
    assert(base[stem.len() as int] == '_');
    assert(base != seq!['.']);
    assert(name[0] == stem[0]);
    assert(!rooted(name));
    assert(joined(cache_dir, name) =~= cache_dir + base + seq!['.'] + end);
    crate::path::extensions_stand_behind_the_last_dot(cache_dir, base, end, "lock"@);
    assert(cache_dir + base + seq!['.'] + "lock"@ =~= cache_dir + stem + seq!['_'] + hex
        + ".lock"@);
}

proof fn lemma_numeral_has_no_separator(n: nat, i: int)
    requires
        0 <= i < numeral(n, 16).len(),
    ensures
        numeral(n, 16)[i] != '/',
    decreases n,
{
    if n >= 16 && i < numeral(n, 16).len() - 1 {
        lemma_numeral_has_no_separator(n / 16, i);
    } else {
        let d = (n % 16) as int;
        assert(digit_char(d) as int == if d < 10 { d + 0x30 } else { d - 10 + 0x61 });
    }
}

/// Whatever the source's name is, the artifact is named after its stem; a source without a name has
/// none.
pub proof fn artifacts_start_with_the_stem(source: Seq<char>, key: u64, wat: bool)
    ensures
        file_stem(source) matches Some(stem) ==> artifact_name(source, key, wat) == stem + "_"@
            + numeral(key as nat, 16) + (if wat {
            ".wat"@
        } else {
            ".wasm"@
        }),
        file_stem(source) is None ==> artifact_name(source, key, wat) == "_"@ + numeral(
            key as nat,
            16,
        ) + (if wat {
            ".wat"@
        } else {
            ".wasm"@
        }),
{
    assert(Seq::<char>::empty() + "_"@ =~= "_"@);
}

} // verus!

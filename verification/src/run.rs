//! Running a program: its arguments, the directories that it sees, and the size of its terminal.
use vstd::prelude::*;

use crate::compile::{flipped, mount_texts, pair_texts, path_map_of, Mount};
use crate::components::{components, strip_prefix, without_prefix};
use crate::guest::guest_args;
use crate::number::{
    decimal, decimals_have_no_letters, is_digit, parse_i32, parse_signed, reading_undoes_writing,
};
use crate::path::{join, joined};
use crate::text::{
    a_single_place_is_the_cut, contains, contains_text, cuts_are_around_the_first_place,
    found_texts_stand_between, has_suffix, opt_str, same_text, split_first, split_once_at, texts,
    without,
};

verus! {

/// What is run.
#[derive(Clone, Copy, Debug, PartialEq, Eq, Structural)]
pub enum RunTarget {
    /// A compiled module, as it is.
    Module,
    /// A source file, which is compiled first.
    Source,
}

/// A file is run as it is where its name ends in `.wasm`.
pub fn run_target(file: &str) -> (r: RunTarget)
    ensures
        r == (if ".wasm"@.is_suffix_of(file@) {
            RunTarget::Module
        } else {
            RunTarget::Source
        }),
{
    if has_suffix(file, ".wasm") {
        RunTarget::Module
    } else {
        RunTarget::Source
    }
}

// ---------------------------------------------------------------------------------------------
// Directories
// ---------------------------------------------------------------------------------------------
/// The host's and the guest's side of a directory argument. It is `HOST::GUEST`, with `::` once;
/// any other text is one path for both.
pub open spec fn dir_sides(dir: Seq<char>) -> (Seq<char>, Seq<char>) {
    match split_first(dir, "::"@) {
        Some((host, guest)) => if contains_text(guest, "::"@) {
            (dir, dir)
        } else {
            (host, guest)
        },
        None => (dir, dir),
    }
}

proof fn lemma_sides(dir: Seq<char>)
    ensures
        (forall|a: Seq<char>, b: Seq<char>| dir != #[trigger] (a + "::"@ + b)) ==> dir_sides(dir)
            == (dir, dir),
        forall|host: Seq<char>, guest: Seq<char>|
            {
                &&& dir == #[trigger] (host + "::"@ + guest)
                &&& forall|a: Seq<char>, b: Seq<char>|
                    dir == #[trigger] (a + "::"@ + b) ==> host.len() <= a.len()
                &&& forall|a: Seq<char>, b: Seq<char>| guest != #[trigger] (a + "::"@ + b)
            } ==> dir_sides(dir) == (host, guest),
        forall|a: Seq<char>, b: Seq<char>, c: Seq<char>|
            dir == #[trigger] (a + "::"@ + b + "::"@ + c) ==> dir_sides(dir) == (dir, dir),
{
    cuts_are_around_the_first_place(dir, "::"@);
    if split_first(dir, "::"@) is Some {
        let (x, y) = split_first(dir, "::"@)->0;
        assert(dir == x + "::"@ + y);
    }
    assert forall|host: Seq<char>, guest: Seq<char>|
        {
            &&& dir == #[trigger] (host + "::"@ + guest)
            &&& forall|a: Seq<char>, b: Seq<char>|
                dir == #[trigger] (a + "::"@ + b) ==> host.len() <= a.len()
            &&& forall|a: Seq<char>, b: Seq<char>| guest != #[trigger] (a + "::"@ + b)
        } implies dir_sides(dir) == (host, guest) by {
        assert(split_first(dir, "::"@) is Some);
        let (x, y) = split_first(dir, "::"@)->0;
        assert(dir == x + "::"@ + y);
        assert(x.len() == host.len());
        assert(x =~= dir.take(x.len() as int) && host =~= dir.take(x.len() as int));
        let n = (x.len() + "::"@.len()) as int;
        assert(y =~= dir.skip(n) && guest =~= dir.skip(n));
        found_texts_stand_between(guest, "::"@);
    }
    assert forall|a: Seq<char>, b: Seq<char>, c: Seq<char>|
        dir == #[trigger] (a + "::"@ + b + "::"@ + c) implies dir_sides(dir) == (dir, dir) by {
        dirs_with_more_cuts_are_whole(dir, a, b, c);
    }
}

/// The host's and the guest's side of a directory argument.
pub fn split_dir(dir: &str) -> (r: (String, String))
    ensures
        (r.0@, r.1@) == dir_sides(dir@),
        (forall|a: Seq<char>, b: Seq<char>| dir@ != #[trigger] (a + "::"@ + b)) ==> r.0@ == dir@
            && r.1@ == dir@,
        forall|host: Seq<char>, guest: Seq<char>|
            {
                &&& dir@ == #[trigger] (host + "::"@ + guest)
                &&& forall|a: Seq<char>, b: Seq<char>|
                    dir@ == #[trigger] (a + "::"@ + b) ==> host.len() <= a.len()
                &&& forall|a: Seq<char>, b: Seq<char>| guest != #[trigger] (a + "::"@ + b)
            } ==> r.0@ == host && r.1@ == guest,
        forall|a: Seq<char>, b: Seq<char>, c: Seq<char>|
            dir@ == #[trigger] (a + "::"@ + b + "::"@ + c) ==> r.0@ == dir@ && r.1@ == dir@,
{
    proof {
        lemma_sides(dir@);
    }
    match split_once_at(dir, "::") {
        Some((host, guest)) => {
            if contains(&guest, "::") {
                (dir.to_owned(), dir.to_owned())
            } else {
                (host, guest)
            }
        },
        None => (dir.to_owned(), dir.to_owned()),
    }
}

/// Where a host directory really lies. With `redirect`, what lies in `/tmp` is moved below the
/// repository's own directory for temporary files.
pub open spec fn host_place(host: Seq<char>, redirect: bool, repo_root: Seq<char>) -> Seq<char> {
    match strip_prefix(host, "/tmp"@) {
        Some(rest) => if redirect {
            joined(joined(repo_root, ".zena/tmp"@), rest)
        } else {
            host
        },
        None => host,
    }
}

/// The directory was moved, so it has to be made.
pub open spec fn is_moved(host: Seq<char>, redirect: bool) -> bool {
    redirect && strip_prefix(host, "/tmp"@) is Some
}

/// A directory that a program sees.
#[derive(Debug)]
pub struct RunDir {
    pub host: String,
    /// The directory has to be made first.
    pub create: bool,
    pub guest: String,
}

/// Directory arguments, read.
pub open spec fn are_run_dirs(
    r: Seq<RunDir>,
    dirs: Seq<Seq<char>>,
    redirect: bool,
    repo_root: Seq<char>,
) -> bool {
    &&& r.len() == dirs.len()
    &&& forall|i: int|
        0 <= i < r.len() ==> {
            let sides = dir_sides(dirs[i]);
            &&& (#[trigger] r[i]).host@ == host_place(sides.0, redirect, repo_root)
            &&& r[i].create == is_moved(sides.0, redirect)
            &&& r[i].guest@ == sides.1
        }
}

/// Reads one directory argument.
fn run_dir(dir: &str, redirect: bool, repo_root: &str) -> (r: RunDir)
    ensures
        ({
            let sides = dir_sides(dir@);
            &&& r.host@ == host_place(sides.0, redirect, repo_root@)
            &&& r.create == is_moved(sides.0, redirect)
            &&& r.guest@ == sides.1
        }),
{
    let (host, guest) = split_dir(dir);
    match without_prefix(&host, "/tmp") {
        Some(rest) => {
            if redirect {
                let base: String = join(repo_root, ".zena/tmp");
                RunDir { host: join(&base, &rest), create: true, guest }
            } else {
                RunDir { host, create: false, guest }
            }
        },
        None => RunDir { host, create: false, guest },
    }
}

/// A run, worked out.
#[derive(Debug)]
pub struct RunPlan {
    pub args: Vec<String>,
    pub dirs: Vec<RunDir>,
    /// The program may start processes.
    pub spawn: bool,
}

/// A program may start processes where the command line or the environment allows it.
pub fn spawn_allowed(flag: bool, env: Option<&str>) -> (r: bool)
    ensures
        r == (flag || opt_str(env) == Some("1"@)),
{
    flag || match env {
        Some(value) => same_text(value, "1"),
        None => false,
    }
}

/// Works out a run: the program's arguments, behind its own name, and its directories. Either of
/// the two switches keeps temporary files in the repository.
pub fn run_wasm(
    file: &str,
    args: &Vec<String>,
    dirs: &Vec<String>,
    project_cache: bool,
    local_cache: bool,
    repo_root: &str,
    spawn: bool,
) -> (r: RunPlan)
    ensures
        texts(r.args@) == seq![file@] + texts(args@),
        are_run_dirs(r.dirs@, texts(dirs@), project_cache || local_cache, repo_root@),
        r.spawn == spawn,
{
    let redirect: bool = project_cache || local_cache;
    let mut out: Vec<RunDir> = Vec::new();
    let mut i: usize = 0;
    while i < dirs.len()
        invariant
            i <= dirs@.len(),
            are_run_dirs(out@, texts(dirs@).take(i as int), redirect, repo_root@),
        decreases dirs@.len() - i,
    {
        let ghost before = out@;
        let dir: RunDir = run_dir(&dirs[i], redirect, repo_root);
        out.push(dir);
        proof {
            let done = texts(dirs@).take(i as int);
            let more = texts(dirs@).take(i + 1);
            assert forall|j: int| 0 <= j < out@.len() implies {
                let sides = dir_sides(more[j]);
                &&& (#[trigger] out@[j]).host@ == host_place(sides.0, redirect, repo_root@)
                &&& out@[j].create == is_moved(sides.0, redirect)
                &&& out@[j].guest@ == sides.1
            } by {
                if j < i {
                    assert(out@[j] == before[j]);
                    assert(more[j] == done[j]);
                }
            }
        }
        i += 1;
    }
    assert(texts(dirs@).take(i as int) =~= texts(dirs@));
    RunPlan { args: guest_args(file, args), dirs: out, spawn }
}

/// The directories that a program sees, found on the host.
#[derive(Debug)]
pub struct OpenedDirs {
    pub mounts: Vec<Mount>,
    /// The host's path of each directory, by the guest's, for processes that the program starts.
    pub path_map: Vec<(String, String)>,
}

/// The canonical path of each directory, and the guest's path for it.
pub open spec fn opened(dirs: Seq<RunDir>, places: Seq<Seq<char>>) -> Seq<
    (Seq<char>, Seq<char>),
> {
    Seq::new(dirs.len(), |i: int| (places[i], dirs[i].guest@))
}

/// Opens a program's directories, given the canonical path of each on the host. Processes that the
/// program starts find them by the same paths. None where there are not as many paths as
/// directories.
pub fn open_run_dirs(dirs: &Vec<RunDir>, places: &Vec<String>) -> (r: Option<OpenedDirs>)
    ensures
        match r {
            Some(o) => {
                &&& dirs@.len() == places@.len()
                &&& mount_texts(o.mounts@) == opened(dirs@, texts(places@))
                &&& pair_texts(o.path_map@) == flipped(opened(dirs@, texts(places@)))
            },
            None => dirs@.len() != places@.len(),
        },
{
    if dirs.len() != places.len() {
        return None;
    }
    let ghost all = opened(dirs@, texts(places@));
    let mut mounts: Vec<Mount> = Vec::new();
    let mut i: usize = 0;
    while i < dirs.len()
        invariant
            i <= dirs@.len(),
            dirs@.len() == places@.len(),
            all == opened(dirs@, texts(places@)),
            mount_texts(mounts@) == all.take(i as int),
        decreases dirs@.len() - i,
    {
        let ghost before = mounts@;
        let mount: Mount = Mount { host: places[i].clone(), guest: dirs[i].guest.clone() };
        mounts.push(mount);
        proof {
            assert(mount_texts(mounts@) =~= mount_texts(before).push((mount.host@, mount.guest@)));
            assert(mount_texts(mounts@) =~= all.take(i + 1));
        }
        i += 1;
    }
    assert(all.take(i as int) =~= all);
    let path_map: Vec<(String, String)> = path_map_of(&mounts);
    Some(OpenedDirs { mounts, path_map })
}

/// A directory that is moved keeps its path below `/tmp`, and lies below the repository's own
/// directory for temporary files.
pub proof fn moved_dirs_lie_in_the_repository(host: Seq<char>, repo_root: Seq<char>)
    requires
        is_moved(host, true),
    ensures
        components(host_place(host, true, repo_root)) == components(
            joined(repo_root, ".zena/tmp"@),
        ) + components(host).skip(components("/tmp"@).len() as int),
{
    reveal_strlit("/tmp");
    assert(crate::path::rooted("/tmp"@));
    crate::components::strip_then_move(host, "/tmp"@, joined(repo_root, ".zena/tmp"@));
}

/// Without the switches every directory is taken where it lies.
pub proof fn dirs_stay_without_the_switches(host: Seq<char>, repo_root: Seq<char>)
    ensures
        host_place(host, false, repo_root) == host,
        !is_moved(host, false),
{
}

// ---------------------------------------------------------------------------------------------
// Terminal size
// ---------------------------------------------------------------------------------------------
/// A number, or else what stands for it.
pub open spec fn size_or(s: Seq<char>, otherwise: int) -> int {
    match parse_signed(s, i32::MAX as nat) {
        Some(n) => n,
        None => otherwise,
    }
}

/// The size that the environment gives as width, `x` and height, or else the terminal's. A side
/// that is missing or no number counts as that of a terminal of eighty columns and 24 rows.
pub open spec fn size_for(asked: Option<Seq<char>>, terminal: (i32, i32)) -> (int, int) {
    match asked {
        Some(s) => match split_first(s, "x"@) {
            Some((w, h)) => (size_or(w, 80), size_or(h, 24)),
            None => (size_or(s, 80), 24),
        },
        None => (terminal.0 as int, terminal.1 as int),
    }
}

fn side_or(s: &str, otherwise: i32) -> (r: i32)
    ensures
        r == size_or(s@, otherwise as int),
{
    match parse_i32(s) {
        Some(n) => n,
        None => otherwise,
    }
}

/// The width and height of the terminal that a program draws on.
pub fn clayterm_size(asked: Option<&str>, terminal: (i32, i32)) -> (r: (i32, i32))
    ensures
        (r.0 as int, r.1 as int) == size_for(opt_str(asked), terminal),
{
    match asked {
        Some(s) => match split_once_at(s, "x") {
            Some((w, h)) => (side_or(&w, 80), side_or(&h, 24)),
            None => (side_or(s, 80), 24),
        },
        None => terminal,
    }
}

// ---------------------------------------------------------------------------------------------
// What the arguments mean
// ---------------------------------------------------------------------------------------------
/// A directory argument in which `::` does not stand is one path for both sides: the guest sees it
/// under its whole text, and on the host it lies there, but for what is moved out of `/tmp`.
pub proof fn plain_dirs_are_the_same_on_both_sides(
    r: Seq<RunDir>,
    dirs: Seq<Seq<char>>,
    redirect: bool,
    repo_root: Seq<char>,
    i: int,
)
    requires
        are_run_dirs(r, dirs, redirect, repo_root),
        0 <= i < dirs.len(),
        forall|a: Seq<char>, b: Seq<char>| dirs[i] != #[trigger] (a + "::"@ + b),
    ensures
        r[i].guest@ == dirs[i],
        !redirect ==> r[i].host@ == dirs[i] && !r[i].create,
        redirect && !is_in_tmp(dirs[i]) ==> r[i].host@ == dirs[i] && !r[i].create,
        redirect && is_in_tmp(dirs[i]) ==> r[i].create && components(r[i].host@) == components(
            joined(repo_root, ".zena/tmp"@),
        ) + components(dirs[i]).skip(2),
{
    assert(r[i].guest@ == dir_sides(dirs[i]).1);
    cuts_are_around_the_first_place(dirs[i], "::"@);
    if split_first(dirs[i], "::"@) is Some {
        let (a, b) = split_first(dirs[i], "::"@)->0;
        assert(dirs[i] == a + "::"@ + b);
    }
    lemma_moved(dirs[i], repo_root);
}

/// A directory argument that holds `::` once has the text in front of it as the host's side and the
/// text behind it as the guest's.
pub proof fn split_dirs_have_two_sides(
    r: Seq<RunDir>,
    dirs: Seq<Seq<char>>,
    redirect: bool,
    repo_root: Seq<char>,
    i: int,
    host: Seq<char>,
    guest: Seq<char>,
)
    requires
        are_run_dirs(r, dirs, redirect, repo_root),
        0 <= i < dirs.len(),
        dirs[i] == host + "::"@ + guest,
        forall|a: Seq<char>, b: Seq<char>| dirs[i] == #[trigger] (a + "::"@ + b) ==> a == host,
    ensures
        r[i].guest@ == guest,
        !redirect ==> r[i].host@ == host && !r[i].create,
        redirect && !is_in_tmp(host) ==> r[i].host@ == host && !r[i].create,
        redirect && is_in_tmp(host) ==> r[i].create && components(r[i].host@) == components(
            joined(repo_root, ".zena/tmp"@),
        ) + components(host).skip(2),
{
    reveal_strlit("::");
    assert("::"@.len() == 2);
    assert(r[i].guest@ == dir_sides(dirs[i]).1);
    a_single_place_is_the_cut(host, "::"@, guest);
    lemma_moved(host, repo_root);
}

/// A directory argument that holds `::` more than once is one path for both sides, too.
pub proof fn dirs_with_more_cuts_are_whole(dir: Seq<char>, a: Seq<char>, b: Seq<char>, c: Seq<char>)
    requires
        dir == a + "::"@ + b + "::"@ + c,
    ensures
        dir_sides(dir) == (dir, dir),
{
    reveal_strlit("::");
    assert("::"@.len() == 2);
    cuts_are_around_the_first_place(dir, "::"@);
    assert(dir =~= a + "::"@ + (b + "::"@ + c));
    assert(split_first(dir, "::"@) is Some);
    let (x, y) = split_first(dir, "::"@)->0;
    assert(x.len() <= a.len());
    let k = (a.len() + 2 + b.len()) as int;
    let front = y.take(k - x.len() - 2);
    assert(y =~= dir.skip((x.len() + 2) as int));
    assert(dir.subrange(k, k + 2) =~= "::"@);
    assert(y.subrange(k - x.len() - 2, k - x.len()) =~= "::"@);
    assert(y =~= front + "::"@ + y.skip(k - x.len()));
    found_texts_stand_between(y, "::"@);
}

/// The path starts at the root and its first name is `tmp`.
pub open spec fn is_in_tmp(host: Seq<char>) -> bool {
    components(host).len() >= 2 && components(host)[0] == seq!['/'] && components(host)[1] == seq![
        't',
        'm',
        'p',
    ]
}

proof fn lemma_tmp_components()
    ensures
        components("/tmp"@) == seq![seq!['/'], seq!['t', 'm', 'p']],
{
    reveal_strlit("/tmp");
    let x = seq!['t', 'm', 'p'];
    assert(x != seq!['.']) by {
        assert(x.len() == 3 && seq!['.'].len() == 1);
    }
    crate::components::names_follow_their_directory(seq!['/'], x);
    crate::components::the_root_is_a_component();
    assert("/tmp"@ =~= seq!['/'] + x);
    assert(components("/tmp"@) =~= seq![seq!['/'], x]);
}

proof fn lemma_moved(host: Seq<char>, repo_root: Seq<char>)
    ensures
        is_moved(host, true) == is_in_tmp(host),
        !is_in_tmp(host) ==> host_place(host, true, repo_root) == host,
        is_in_tmp(host) ==> components(host_place(host, true, repo_root)) == components(
            joined(repo_root, ".zena/tmp"@),
        ) + components(host).skip(2),
{
    lemma_tmp_components();
    let all = components(host);
    let tmp = components("/tmp"@);
    if is_in_tmp(host) {
        assert(all.subrange(0, 2) =~= tmp);
    } else if tmp.is_prefix_of(all) {
        assert(all.subrange(0, 2)[0] == all[0] && all.subrange(0, 2)[1] == all[1]);
    }
    if is_moved(host, true) {
        moved_dirs_lie_in_the_repository(host, repo_root);
    }
}

/// With the switch, what lies in `/tmp` is moved and keeps its path below it; nothing else is.
pub proof fn only_tmp_is_moved(host: Seq<char>, repo_root: Seq<char>)
    ensures
        is_moved(host, true) <==> is_in_tmp(host),
        !is_in_tmp(host) ==> host_place(host, true, repo_root) == host,
        is_in_tmp(host) ==> components(host_place(host, true, repo_root)) == components(
            joined(repo_root, ".zena/tmp"@),
        ) + components(host).skip(2),
{
    lemma_moved(host, repo_root);
}

/// A size that is written as two numbers with an `x` between them is read as these; without a size
/// the terminal's counts.
pub proof fn sizes_are_read_as_written(w: i32, h: i32, terminal: (i32, i32))
    ensures
        size_for(Some(decimal(w as int) + "x"@ + decimal(h as int)), terminal) == (
            w as int,
            h as int,
        ),
        size_for(Some(decimal(w as int)), terminal) == (w as int, 24int),
        size_for(None, terminal) == (terminal.0 as int, terminal.1 as int),
{
    reveal_strlit("x");
    let a = decimal(w as int);
    let b = decimal(h as int);
    assert("x"@.len() == 1 && "x"@[0] == 'x');
    reading_undoes_writing(w as int, i32::MAX as nat);
    reading_undoes_writing(h as int, i32::MAX as nat);
    decimals_have_no_letters(w as int);
    decimals_have_no_letters(h as int);
    let s = a + "x"@ + b;
    assert forall|c: Seq<char>, d: Seq<char>| s == #[trigger] (c + "x"@ + d) implies c == a by {
        let k = c.len() as int;
        assert((c + "x"@ + d)[k] == 'x');
        assert(s.len() == c.len() + 1 + d.len() && s.len() == a.len() + 1 + b.len());
        if k < a.len() {
            assert(s[k] == a[k]);
            assert(is_digit(a[k]) || a[k] == '-');
        } else if k > a.len() {
            assert(s[k] == b[k - a.len() - 1]);
            assert(is_digit(b[k - a.len() - 1]) || b[k - a.len() - 1] == '-');
        }
        assert(c =~= s.take(k));
        assert(a =~= s.take(a.len() as int));
    }
    a_single_place_is_the_cut(a, "x"@, b);
    cuts_are_around_the_first_place(a, "x"@);
    if split_first(a, "x"@) is Some {
        let (c, d) = split_first(a, "x"@)->0;
        assert((c + "x"@ + d)[c.len() as int] == 'x');
    }
}

/// Each directory is opened at its canonical path, under the guest's own.
pub proof fn dirs_are_opened_where_they_lie(dirs: Seq<RunDir>, places: Seq<Seq<char>>, i: int)
    requires
        dirs.len() == places.len(),
        0 <= i < dirs.len(),
    ensures
        opened(dirs, places).len() == dirs.len(),
        opened(dirs, places)[i].0 == places[i],
        opened(dirs, places)[i].1 == dirs[i].guest@,
{
}

/// Each side of a size counts by itself: a number as it is read, and anything else as that of a
/// plain terminal.
pub proof fn sides_count_by_themselves(w: Seq<char>, h: Seq<char>, terminal: (i32, i32))
    requires
        without(w, 'x'),
    ensures
        ({
            let width = match parse_signed(w, i32::MAX as nat) {
                Some(n) => n,
                None => 80,
            };
            let height = match parse_signed(h, i32::MAX as nat) {
                Some(n) => n,
                None => 24,
            };
            &&& size_for(Some(w + "x"@ + h), terminal) == (width, height)
            &&& size_for(Some(w), terminal) == (width, 24int)
        }),
{
    reveal_strlit("x");
    assert("x"@.len() == 1 && "x"@[0] == 'x');
    let s = w + "x"@ + h;
    cuts_are_around_the_first_place(s, "x"@);
    assert(s == w + "x"@ + h);
    let (c, d) = split_first(s, "x"@)->0;
    assert(split_first(s, "x"@) is Some);
    assert((c + "x"@ + d)[c.len() as int] == 'x');
    if c.len() < w.len() {
        assert(s[c.len() as int] == w[c.len() as int]);
    }
    assert(c =~= s.take(w.len() as int) && w =~= s.take(w.len() as int));
    assert(d =~= s.skip((w.len() + 1) as int) && h =~= s.skip((w.len() + 1) as int));
    cuts_are_around_the_first_place(w, "x"@);
    if split_first(w, "x"@) is Some {
        let (c, d) = split_first(w, "x"@)->0;
        assert((c + "x"@ + d)[c.len() as int] == 'x');
    }
}

} // verus!

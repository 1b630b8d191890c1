//! Compiling a source file into the cache: what is asked of the compiler, and where its output
//! goes.
use vstd::prelude::*;

use crate::args::{flag_if, flag_with, push_flag_if, push_flag_with};
use crate::artifact::{artifact_name, artifact_paths, temp_name, ArtifactPaths};
use crate::components::{components, get_components, strip_prefix, without_prefix};
use crate::engine::effective_opt_level;
use crate::key::{
    cache_key, key_digest, key_writes, text_or_empty, zena_files, KeyInputs, WalkEntry,
};
use crate::path::{get_parent, join, joined, parent, with_extension};
use crate::stale::FileStamp;
use crate::text::{glue, has_suffix, opt_text, same_text, texts};

verus! {

// ---------------------------------------------------------------------------------------------
// Requests
// ---------------------------------------------------------------------------------------------
/// A compile, as it is asked for.
#[derive(Debug)]
pub struct CompileRequest {
    pub file: String,
    pub verbose: bool,
    /// Print how long the compiler's phases took.
    pub time: bool,
    pub test_mode: bool,
    /// Keep the compiler's output back and show it only on failure.
    pub capture_output: bool,
    /// Show what was kept back also where the compiler itself did not fail.
    pub replay: bool,
    /// Compile even where the cache is current.
    pub no_cache: bool,
    pub debug: bool,
    pub target: Option<String>,
    /// Emit the text form.
    pub wat: bool,
    pub wit: Option<String>,
    pub world: Option<String>,
}

/// A build: the compile, and the directory that has to be there for its output.
#[derive(Debug)]
pub struct BuildPlan {
    pub request: CompileRequest,
    pub output_dir: Option<String>,
}

/// A build compiles every time: asking for it is the decision that the output is stale. The
/// form follows from the output's extension, and the output's directory is made where the output
/// names one.
pub fn build_file(
    file: &str,
    output: &str,
    verbose: bool,
    time: bool,
    debug: bool,
    target: Option<String>,
    wit: Option<String>,
    world: Option<String>,
) -> (r: BuildPlan)
    ensures
        r.request.file@ == file@,
        r.request.verbose == verbose,
        r.request.time == time,
        !r.request.test_mode,
        !r.request.capture_output,
        !r.request.replay,
        r.request.no_cache,
        r.request.debug == debug,
        r.request.target == target,
        r.request.wat == ".wat"@.is_suffix_of(output@),
        r.request.wit == wit,
        r.request.world == world,
        opt_text(r.output_dir) == (match parent(output@) {
            Some(p) => if p.len() > 0 {
                Some(p)
            } else {
                None
            },
            None => None,
        }),
{
    let output_dir: Option<String> = match get_parent(output) {
        Some(p) => if p.as_str().is_empty() {
            None
        } else {
            Some(p)
        },
        None => None,
    };
    BuildPlan {
        request: CompileRequest {
            file: file.to_owned(),
            verbose,
            time,
            test_mode: false,
            capture_output: false,
            replay: false,
            no_cache: true,
            debug,
            target,
            wat: has_suffix(output, ".wat"),
            wit,
            world,
        },
        output_dir,
    }
}

/// The compile behind a run. The compiler's output is kept back, so that a run that misses the
/// cache prints what one that hits it prints; it is shown on any failure, and `verbose` shows it as
/// it comes.
pub fn compile_and_run(file: &str, verbose: bool, time: bool, no_cache: bool, debug: bool) -> (r:
    CompileRequest)
    ensures
        r.file@ == file@,
        r.verbose == verbose,
        r.time == time,
        !r.test_mode,
        r.capture_output == !verbose,
        r.replay,
        r.no_cache == no_cache,
        r.debug == debug,
        r.target is None,
        !r.wat,
        r.wit is None,
        r.world is None,
{
    CompileRequest {
        file: file.to_owned(),
        verbose,
        time,
        test_mode: false,
        capture_output: !verbose,
        replay: true,
        no_cache,
        debug,
        target: None,
        wat: false,
        wit: None,
        world: None,
    }
}

/// The compile of one of the tool's own programs.
pub fn tool_request(file: &str, verbose: bool, debug: bool) -> (r: CompileRequest)
    ensures
        r.file@ == file@,
        r.verbose == verbose,
        !r.time,
        !r.test_mode,
        r.capture_output,
        !r.replay,
        !r.no_cache,
        r.debug == debug,
        r.target is None,
        !r.wat,
        r.wit is None,
        r.world is None,
{
    CompileRequest {
        file: file.to_owned(),
        verbose,
        time: false,
        test_mode: false,
        capture_output: true,
        replay: false,
        no_cache: false,
        debug,
        target: None,
        wat: false,
        wit: None,
        world: None,
    }
}

/// The compile of a test file.
pub fn test_request(file: &str, verbose: bool, debug: bool) -> (r: CompileRequest)
    ensures
        r.file@ == file@,
        r.verbose == verbose,
        !r.time,
        r.test_mode,
        r.capture_output,
        !r.replay,
        !r.no_cache,
        r.debug == debug,
        r.target is None,
        !r.wat,
        r.wit is None,
        r.world is None,
{
    CompileRequest {
        file: file.to_owned(),
        verbose,
        time: false,
        test_mode: true,
        capture_output: true,
        replay: false,
        no_cache: false,
        debug,
        target: None,
        wat: false,
        wit: None,
        world: None,
    }
}

// ---------------------------------------------------------------------------------------------
// Places
// ---------------------------------------------------------------------------------------------
/// Where the repository root is looked for.
#[derive(Debug)]
pub enum RootChoice {
    /// The environment names it.
    FromEnv(String),
    /// It lies two levels above the directory that this tool was built in.
    FromBuild(String),
}

/// The root that the environment names, or else the one above the build directory. There is none
/// where the build directory lies less than two levels deep.
pub fn repo_root(env: Option<String>, build_dir: &str) -> (r: Option<RootChoice>)
    ensures
        match env {
            Some(e) => r == Some(RootChoice::FromEnv(e)),
            None => match parent(build_dir@) {
                Some(p) => match parent(p) {
                    Some(q) => r matches Some(RootChoice::FromBuild(path)) && path@ == q,
                    None => r is None,
                },
                None => r is None,
            },
        },
{
    match env {
        Some(e) => Some(RootChoice::FromEnv(e)),
        None => match get_parent(build_dir) {
            Some(p) => match get_parent(&p) {
                Some(q) => Some(RootChoice::FromBuild(q)),
                None => None,
            },
            None => None,
        },
    }
}

impl RootChoice {
    /// What to say where nothing is there. A root that was not named carries the host's own
    /// message.
    pub fn missing_message(&self) -> (r: Option<String>)
        ensures
            opt_text(r) == (match *self {
                RootChoice::FromEnv(path) => Some("ZENA_REPO_ROOT does not exist: "@ + path@),
                RootChoice::FromBuild(_) => None,
            }),
    {
        match self {
            RootChoice::FromEnv(path) => Some(
                glue("ZENA_REPO_ROOT does not exist: ", path),
            ),
            RootChoice::FromBuild(_) => None,
        }
    }
}

/// The compiler's wasm file: the environment's, or else the one that the repository builds.
pub fn compiler_wasm(env: Option<String>, repo_root: &str) -> (r: String)
    ensures
        match env {
            Some(e) => r == e,
            None => r@ == joined(repo_root@, "packages/zena-compiler/zena/out/cli.wasm"@),
        },
{
    match env {
        Some(e) => e,
        None => join(repo_root, "packages/zena-compiler/zena/out/cli.wasm"),
    }
}

/// What to say where the compiler's wasm file is not there.
pub fn compiler_missing_message(path: &str) -> (r: String)
    ensures
        r@ == "Compiler WASM not found at "@ + path@ + ". Please build it first."@,
{
    let head: String = glue("Compiler WASM not found at ", path);
    glue(&head, ". Please build it first.")
}

/// The cache directory: in the repository where one of the two switches is on, or else in the
/// user's cache, where there is one.
pub fn cache_dir(
    project_cache: bool,
    local_cache: bool,
    repo_root: &str,
    user_cache: Option<&str>,
) -> (r: Option<String>)
    ensures
        opt_text(r) == (if project_cache || local_cache {
            Some(joined(repo_root@, ".zena/cache"@))
        } else {
            match user_cache {
                Some(u) => Some(joined(u@, "wasm_objects"@)),
                None => None,
            }
        }),
{
    if project_cache || local_cache {
        Some(join(repo_root, ".zena/cache"))
    } else {
        match user_cache {
            Some(u) => Some(join(u, "wasm_objects")),
            None => None,
        }
    }
}

/// The directory on the host that stands for the guest's `/tmp`: in the repository where one of
/// the two switches is on, and then it has to be made.
pub fn tmp_dir(project_cache: bool, local_cache: bool, repo_root: &str) -> (r: (String, bool))
    ensures
        r.0@ == (if project_cache || local_cache {
            joined(repo_root@, ".zena/tmp"@)
        } else {
            "/tmp"@
        }),
        r.1 == (project_cache || local_cache),
{
    if project_cache || local_cache {
        (join(repo_root, ".zena/tmp"), true)
    } else {
        ("/tmp".to_owned(), false)
    }
}

/// How the compiler is told of a source file.
#[derive(Debug)]
pub struct SourcePlace {
    /// The path that the compiler is given.
    pub arg: String,
    /// The directory to open to the compiler, for a file outside the repository.
    pub external_dir: Option<String>,
}

/// A file in the repository is given by its path from the root.
pub open spec fn source_arg(source: Seq<char>, repo_root: Seq<char>) -> Seq<char> {
    match strip_prefix(source, repo_root) {
        Some(rel) => rel,
        None => source,
    }
}

/// A file outside the repository needs its directory opened.
pub open spec fn source_dir(source: Seq<char>, repo_root: Seq<char>) -> Option<Seq<char>> {
    match strip_prefix(source, repo_root) {
        Some(_) => None,
        None => Some(
            match parent(source) {
                Some(p) => p,
                None => source,
            },
        ),
    }
}

/// Files outside the repository are passed by their absolute path, and their directory is opened
/// under that same path.
pub fn locate_source(source: &str, repo_root: &str) -> (r: SourcePlace)
    ensures
        r.arg@ == source_arg(source@, repo_root@),
        opt_text(r.external_dir) == source_dir(source@, repo_root@),
{
    match without_prefix(source, repo_root) {
        Some(rel) => SourcePlace { arg: rel, external_dir: None },
        None => {
            let dir: String = match get_parent(source) {
                Some(p) => p,
                None => source.to_owned(),
            };
            SourcePlace { arg: source.to_owned(), external_dir: Some(dir) }
        },
    }
}

/// The compiler, which works in the repository root, finds a source file in the repository under
/// the path that it is given.
pub proof fn source_arg_names_the_source(source: Seq<char>, repo_root: Seq<char>)
    requires
        strip_prefix(source, repo_root) is Some,
    ensures
        components(joined(repo_root, source_arg(source, repo_root))) == components(source),
{
    crate::components::strip_then_join(source, repo_root);
}

/// What a program is told of a file in the repository does not depend on where the repository
/// lies.
pub proof fn source_arg_ignores_the_checkout(
    source: Seq<char>,
    repo_root: Seq<char>,
    other_source: Seq<char>,
    other_root: Seq<char>,
    steps: Seq<Seq<char>>,
)
    requires
        components(source) == components(repo_root) + steps,
        components(other_source) == components(other_root) + steps,
    ensures
        source_arg(source, repo_root) == source_arg(other_source, other_root),
{
    assert(components(repo_root).is_prefix_of(components(source)));
    assert(components(other_root).is_prefix_of(components(other_source)));
    assert(components(source).skip(components(repo_root).len() as int) =~= steps);
    assert(components(other_source).skip(components(other_root).len() as int) =~= steps);
}

/// The package that a source file belongs to: the directory below `packages` that it lies in.
pub open spec fn package_of(source: Seq<char>, repo_root: Seq<char>) -> Option<Seq<char>> {
    let all = components(source);
    let root = components(repo_root);
    let rest = all.skip(root.len() as int);
    if root.is_prefix_of(all) && rest.len() >= 2 && rest[0] == "packages"@ && rest[1] != ".."@ {
        Some(joined(joined(repo_root, "packages"@), rest[1]))
    } else {
        None
    }
}

/// The directory of the package that a source file in the repository belongs to.
pub fn package_dir(source: &str, repo_root: &str) -> (r: Option<String>)
    ensures
        opt_text(r) == package_of(source@, repo_root@),
{
    let all: Vec<String> = get_components(source);
    let root: Vec<String> = get_components(repo_root);
    let ghost ta = components(source@);
    let ghost tr = components(repo_root@);
    if root.len() > all.len() {
        return None;
    }
    let mut i: usize = 0;
    while i < root.len()
        invariant
            ta == texts(all@),
            tr == texts(root@),
            ta == components(source@),
            tr == components(repo_root@),
            i <= root@.len() <= all@.len(),
            forall|j: int| 0 <= j < i ==> ta[j] == #[trigger] tr[j],
        decreases root@.len() - i,
    {
        if !same_text(&all[i], &root[i]) {
            assert(ta.subrange(0, tr.len() as int)[i as int] != tr[i as int]);
            return None;
        }
        assert(ta[i as int] == tr[i as int]);
        i += 1;
    }
    assert(ta.subrange(0, tr.len() as int) =~= tr);
    let n: usize = root.len();
    if all.len() - n < 2 {
        return None;
    }
    assert(ta.skip(n as int)[0] == all@[n as int]@);
    assert(ta.skip(n as int)[1] == all@[n + 1]@);
    if same_text(&all[n], "packages") && !same_text(&all[n + 1], "..") {
        let packages: String = join(repo_root, "packages");
        Some(join(&packages, &all[n + 1]))
    } else {
        None
    }
}

// ---------------------------------------------------------------------------------------------
// The plan
// ---------------------------------------------------------------------------------------------
/// A host directory, and the path under which a guest sees it.
#[derive(Debug)]
pub struct Mount {
    pub host: String,
    pub guest: String,
}

/// The host and guest paths of mounts.
pub open spec fn mount_texts(mounts: Seq<Mount>) -> Seq<(Seq<char>, Seq<char>)> {
    Seq::new(mounts.len(), |i: int| (mounts[i].host@, mounts[i].guest@))
}

/// The texts of pairs of strings.
pub open spec fn pair_texts(pairs: Seq<(String, String)>) -> Seq<(Seq<char>, Seq<char>)> {
    Seq::new(pairs.len(), |i: int| (pairs[i].0@, pairs[i].1@))
}

pub proof fn lemma_pair_texts_push(pairs: Seq<(String, String)>, x: (String, String))
    ensures
        pair_texts(pairs.push(x)) == pair_texts(pairs).push((x.0@, x.1@)),
{
    assert(pair_texts(pairs.push(x)) =~= pair_texts(pairs).push((x.0@, x.1@)));
}

/// Pairs the other way round.
pub open spec fn flipped(pairs: Seq<(Seq<char>, Seq<char>)>) -> Seq<(Seq<char>, Seq<char>)> {
    Seq::new(pairs.len(), |i: int| (pairs[i].1, pairs[i].0))
}

/// The host's path of each directory by the guest's, for processes that a guest starts.
pub fn path_map_of(mounts: &Vec<Mount>) -> (r: Vec<(String, String)>)
    ensures
        pair_texts(r@) == flipped(mount_texts(mounts@)),
{
    let mut out: Vec<(String, String)> = Vec::new();
    let mut i: usize = 0;
    while i < mounts.len()
        invariant
            i <= mounts@.len(),
            pair_texts(out@) == flipped(mount_texts(mounts@)).take(i as int),
        decreases mounts@.len() - i,
    {
        let ghost before = out@;
        let pair: (String, String) = (mounts[i].guest.clone(), mounts[i].host.clone());
        out.push(pair);
        proof {
            lemma_pair_texts_push(before, pair);
            assert(pair_texts(out@) =~= flipped(mount_texts(mounts@)).take(i + 1));
        }
        i += 1;
    }
    assert(flipped(mount_texts(mounts@)).take(i as int) =~= flipped(mount_texts(mounts@)));
    out
}

/// What the host knows of a compile's surroundings.
#[derive(Debug)]
pub struct CompileSite {
    /// The absolute path of the source file.
    pub source: String,
    pub repo_root: String,
    pub cache_dir: String,
    /// The number of this process.
    pub pid: u32,
    pub compiler: Option<FileStamp>,
    pub backend: Option<String>,
    /// The optimization level of the command line.
    pub opt_flag: Option<String>,
    /// The optimization level of the environment.
    pub opt_env: Option<String>,
    /// What the environment says of wide arithmetic.
    pub wide_arithmetic: Option<String>,
    /// What the environment says of debug names.
    pub debug_names: Option<String>,
    pub manifest: Option<FileStamp>,
    pub stdlib: Vec<WalkEntry>,
    pub package: Vec<WalkEntry>,
}

/// A compile, worked out.
#[derive(Debug)]
pub struct CompilePlan {
    pub key: u64,
    pub paths: ArtifactPaths,
    /// The compiler's arguments.
    pub args: Vec<String>,
    /// Variables that are set for the compiler, in place of the host's of the same names.
    pub env: Vec<(String, String)>,
    pub mounts: Vec<Mount>,
}

/// The key of a compile.
pub open spec fn key_inputs(request: CompileRequest, site: CompileSite) -> KeyInputs {
    KeyInputs {
        source: site.source,
        test_mode: request.test_mode,
        debug: request.debug,
        target: request.target,
        wat: request.wat,
        compiler: site.compiler,
        backend: site.backend,
        opt_level: match site.opt_flag {
            Some(level) => Some(level),
            None => site.opt_env,
        },
        wide_arithmetic: site.wide_arithmetic,
        debug_names: if request.debug {
            None
        } else {
            site.debug_names
        },
        manifest: site.manifest,
        stdlib: site.stdlib,
        package: site.package,
    }
}

/// The arguments of the compiler: the program name, the source, the output, and the options.
pub open spec fn compiler_args(request: CompileRequest, arg: Seq<char>, out: Seq<char>) -> Seq<
    Seq<char>,
> {
    seq!["zc"@, arg, "-o"@, out] + flag_with("-t"@, request.target) + flag_if(
        "--time"@,
        request.time,
    ) + flag_if("--test"@, request.test_mode) + flag_with("--wit"@, request.wit) + flag_with(
        "--world"@,
        request.world,
    )
}

/// Variables for the compiler. An unknown variable is ignored by a compiler that predates it.
pub open spec fn compiler_env(debug: bool, opt_flag: Option<String>) -> Seq<
    (Seq<char>, Seq<char>),
> {
    (if debug {
        seq![("ZENA_DEBUG_NAMES"@, "1"@)]
    } else {
        Seq::empty()
    }) + (match opt_flag {
        Some(level) => seq![("ZENA_OPT_LEVEL"@, level@)],
        None => Seq::empty(),
    })
}

/// The directories that the compiler sees: the repository, the standard library, the cache, and
/// the source's own where that lies outside.
pub open spec fn compiler_mounts(
    repo_root: Seq<char>,
    cache_dir: Seq<char>,
    external_dir: Option<Seq<char>>,
) -> Seq<(Seq<char>, Seq<char>)> {
    seq![
        (repo_root, "."@),
        (joined(repo_root, "packages/stdlib/zena"@), "/stdlib"@),
        (cache_dir, cache_dir),
    ] + (match external_dir {
        Some(dir) => seq![(dir, dir)],
        None => Seq::empty(),
    })
}

/// The arguments of the compiler.
fn args_for(request: &CompileRequest, arg: &str, out: &str) -> (r: Vec<String>)
    ensures
        texts(r@) == compiler_args(*request, arg@, out@),
{
    let mut args: Vec<String> = Vec::new();
    args.push("zc".to_owned());
    args.push(arg.to_owned());
    args.push("-o".to_owned());
    args.push(out.to_owned());
    assert(texts(args@) =~= seq!["zc"@, arg@, "-o"@, out@]);
    push_flag_with(&mut args, "-t", &request.target);
    push_flag_if(&mut args, "--time", request.time);
    push_flag_if(&mut args, "--test", request.test_mode);
    push_flag_with(&mut args, "--wit", &request.wit);
    push_flag_with(&mut args, "--world", &request.world);
    args
}

/// A copy of an optional string.
fn copy_opt(s: &Option<String>) -> (r: Option<String>)
    ensures
        r == *s,
{
    match s {
        Some(t) => Some(t.clone()),
        None => None,
    }
}

/// Works out a compile: its key and files, and how the compiler is called.
pub fn compile_to_cache(request: &CompileRequest, site: CompileSite) -> (r: CompilePlan)
    ensures
        r.key == key_digest(key_inputs(*request, site).items()),
        r.paths.cached@ == joined(
            site.cache_dir@,
            artifact_name(site.source@, r.key, request.wat),
        ),
        r.paths.temp@ == joined(
            site.cache_dir@,
            temp_name(site.source@, r.key, request.wat, site.pid),
        ),
        r.paths.lock@ == with_extension(r.paths.cached@, "lock"@),
        texts(r.args@) == compiler_args(
            *request,
            source_arg(site.source@, site.repo_root@),
            r.paths.temp@,
        ),
        pair_texts(r.env@) == compiler_env(request.debug, site.opt_flag),
        mount_texts(r.mounts@) == compiler_mounts(
            site.repo_root@,
            site.cache_dir@,
            source_dir(site.source@, site.repo_root@),
        ),
{
    let place: SourcePlace = locate_source(&site.source, &site.repo_root);
    let opt_level: Option<String> = effective_opt_level(copy_opt(&site.opt_flag), site.opt_env);
    let mut env: Vec<(String, String)> = Vec::new();
    if request.debug {
        env.push(("ZENA_DEBUG_NAMES".to_owned(), "1".to_owned()));
    }
    match &site.opt_flag {
        Some(level) => {
            env.push(("ZENA_OPT_LEVEL".to_owned(), level.clone()));
        },
        None => {},
    }
    assert(pair_texts(env@) =~= compiler_env(request.debug, site.opt_flag));
    let mut mounts: Vec<Mount> = Vec::new();
    mounts.push(Mount { host: site.repo_root.clone(), guest: ".".to_owned() });
    mounts.push(
        Mount { host: join(&site.repo_root, "packages/stdlib/zena"), guest: "/stdlib".to_owned() },
    );
    mounts.push(Mount { host: site.cache_dir.clone(), guest: site.cache_dir.clone() });
    match &place.external_dir {
        Some(dir) => {
            mounts.push(Mount { host: dir.clone(), guest: dir.clone() });
        },
        None => {},
    }
    assert(mount_texts(mounts@) =~= compiler_mounts(
        site.repo_root@,
        site.cache_dir@,
        source_dir(site.source@, site.repo_root@),
    ));
    let inputs: KeyInputs = KeyInputs {
        source: site.source.clone(),
        test_mode: request.test_mode,
        debug: request.debug,
        target: copy_opt(&request.target),
        wat: request.wat,
        compiler: site.compiler,
        backend: site.backend,
        opt_level,
        wide_arithmetic: site.wide_arithmetic,
        debug_names: if request.debug {
            None
        } else {
            site.debug_names
        },
        manifest: site.manifest,
        stdlib: site.stdlib,
        package: site.package,
    };
    let key: u64 = cache_key(&inputs);
    let paths: ArtifactPaths = artifact_paths(
        &site.cache_dir,
        &site.source,
        key,
        request.wat,
        site.pid,
    );
    let args: Vec<String> = args_for(request, &place.arg, &paths.temp);
    CompilePlan { key, paths, args, env, mounts }
}

/// Toggling what the environment says of the code generator, the optimization level, wide
/// arithmetic or debug names leads to another artifact, unless the digests of two keys collide.
pub proof fn toggled_settings_part_artifacts(
    request: CompileRequest,
    site: CompileSite,
    other: CompileSite,
    cache_dir: Seq<char>,
)
    requires
        ({
            let a = key_inputs(request, site);
            let b = key_inputs(request, other);
            &&& text_or_empty(a.backend) != text_or_empty(b.backend) || text_or_empty(a.opt_level)
                != text_or_empty(b.opt_level) || text_or_empty(a.wide_arithmetic) != text_or_empty(
                b.wide_arithmetic,
            ) || text_or_empty(a.debug_names) != text_or_empty(b.debug_names)
            &&& key_digest(a.items()) == key_digest(b.items()) ==> key_writes(a.items())
                == key_writes(b.items())
        }),
    ensures
        joined(
            cache_dir,
            artifact_name(
                site.source@,
                key_digest(key_inputs(request, site).items()),
                request.wat,
            ),
        ) != joined(
            cache_dir,
            artifact_name(
                other.source@,
                key_digest(key_inputs(request, other).items()),
                request.wat,
            ),
        ),
{
    let a = key_inputs(request, site);
    let b = key_inputs(request, other);
    let k = key_digest(a.items());
    let m = key_digest(b.items());
    if joined(cache_dir, artifact_name(site.source@, k, request.wat)) == joined(
        cache_dir,
        artifact_name(other.source@, m, request.wat),
    ) {
        crate::artifact::equal_artifacts_have_equal_keys(
            cache_dir,
            site.source@,
            k,
            request.wat,
            other.source@,
            m,
            request.wat,
        );
        crate::key::equal_keys_agree(a, b);
    }
}

/// Two compiles that have the same key, or are given the same artifact in one cache, agree in all
/// that decides the artifact's bytes: the source, the mode, debugging, the target and the form, the
/// stamps of the compiler and of the package manifest, the settings that reach the compiler, and
/// the Zena files of the standard library and the package with their stamps. So where any of these
/// differs, so do the keys and the artifacts, unless the digests of two different keys collide.
pub proof fn shared_artifacts_need_equal_inputs(
    request: CompileRequest,
    site: CompileSite,
    plan: CompilePlan,
    other_request: CompileRequest,
    other: CompileSite,
    other_plan: CompilePlan,
)
    requires
        plan.key == key_digest(key_inputs(request, site).items()),
        plan.paths.cached@ == joined(
            site.cache_dir@,
            artifact_name(site.source@, plan.key, request.wat),
        ),
        other_plan.key == key_digest(key_inputs(other_request, other).items()),
        other_plan.paths.cached@ == joined(
            other.cache_dir@,
            artifact_name(other.source@, other_plan.key, other_request.wat),
        ),
        plan.key == other_plan.key || (site.cache_dir@ == other.cache_dir@ && plan.paths.cached@
            == other_plan.paths.cached@),
        plan.key == other_plan.key ==> key_writes(key_inputs(request, site).items()) == key_writes(
            key_inputs(other_request, other).items(),
        ),
    ensures
        site.source@ == other.source@,
        request.test_mode == other_request.test_mode,
        request.debug == other_request.debug,
        request.wat == other_request.wat,
        match (request.target, other_request.target) {
            (Some(t), Some(u)) => t@ == u@,
            (None, None) => true,
            _ => false,
        },
        site.compiler == other.compiler,
        site.manifest == other.manifest,
        same_setting(site.backend, other.backend),
        same_setting(site.wide_arithmetic, other.wide_arithmetic),
        same_setting(
            if site.opt_flag is Some {
                site.opt_flag
            } else {
                site.opt_env
            },
            if other.opt_flag is Some {
                other.opt_flag
            } else {
                other.opt_env
            },
        ),
        !request.debug ==> same_setting(site.debug_names, other.debug_names),
        zena_files(site.stdlib@) + zena_files(site.package@) == zena_files(other.stdlib@)
            + zena_files(other.package@),
{
    if plan.key != other_plan.key {
        crate::artifact::equal_artifacts_have_equal_keys(
            site.cache_dir@,
            site.source@,
            plan.key,
            request.wat,
            other.source@,
            other_plan.key,
            other_request.wat,
        );
    }
    let a = key_inputs(request, site);
    let b = key_inputs(other_request, other);
    crate::key::equal_keys_agree(a, b);
    assert(a.target == request.target && b.target == other_request.target);
}

/// Two settings are the same text; one that is not set counts as empty.
pub open spec fn same_setting(a: Option<String>, b: Option<String>) -> bool {
    match (a, b) {
        (Some(s), Some(t)) => s@ == t@,
        (Some(s), None) => s@.len() == 0,
        (None, Some(t)) => t@.len() == 0,
        (None, None) => true,
    }
}

/// A source in the repository is given from its root, and needs no directory opened; one outside is
/// given whole, and its directory is opened.
pub proof fn sources_are_given_by_where_they_lie(
    source: Seq<char>,
    repo_root: Seq<char>,
    steps: Seq<Seq<char>>,
)
    requires
        components(repo_root).len() > 0,
    ensures
        components(source) == components(repo_root) + steps ==> source_dir(source, repo_root) is None
            && components(source_arg(source, repo_root)) == steps,
        (forall|more: Seq<Seq<char>>|
            components(source) != #[trigger] (components(repo_root) + more)) ==> source_arg(
            source,
            repo_root,
        ) == source && source_dir(source, repo_root) == Some(
            match parent(source) {
                Some(p) => p,
                None => source,
            },
        ),
{
    crate::components::prefixes_come_off_by_component(source, repo_root, steps);
}

/// A path is the package `name` of the repository, or lies in it, behind the steps of `rest`.
pub open spec fn lies_in_package(
    path: Seq<char>,
    repo_root: Seq<char>,
    name: Seq<char>,
    rest: Seq<Seq<char>>,
) -> bool {
    components(path) == components(repo_root) + seq!["packages"@, name] + rest
}

/// The package of a source is the directory right below `packages` that it lies in, or is; a source
/// that lies elsewhere belongs to none.
pub proof fn packages_lie_below_packages(
    source: Seq<char>,
    repo_root: Seq<char>,
    name: Seq<char>,
    rest: Seq<Seq<char>>,
)
    ensures
        lies_in_package(source, repo_root, name, rest) && name != ".."@ ==> package_of(
            source,
            repo_root,
        ) == Some(joined(joined(repo_root, "packages"@), name)),
        package_of(source, repo_root) is Some ==> exists|p: Seq<char>, more: Seq<Seq<char>>|
            #[trigger] lies_in_package(source, repo_root, p, more) && p != ".."@ && package_of(
                source,
                repo_root,
            ) == Some(joined(joined(repo_root, "packages"@), p)),
{
    let all = components(source);
    let root = components(repo_root);
    let n = root.len() as int;
    let tail = all.skip(n);
    if lies_in_package(source, repo_root, name, rest) {
        assert(all.subrange(0, n) =~= root);
        assert(tail[0] == "packages"@ && tail[1] == name);
    }
    if package_of(source, repo_root) is Some {
        let more = tail.skip(2);
        assert(all.subrange(0, n) == root);
        assert(all =~= root + seq!["packages"@, tail[1]] + more) by {
            assert forall|i: int| 0 <= i < all.len() implies all[i] == (root + seq![
                "packages"@,
                tail[1],
            ] + more)[i] by {
                if i < n {
                    assert(all.subrange(0, n)[i] == all[i]);
                } else if i == n {
                    assert(all[i] == tail[0]);
                } else if i == n + 1 {
                    assert(all[i] == tail[1]);
                } else {
                    assert(all[i] == more[i - n - 2]);
                }
            }
        }
        assert(lies_in_package(source, repo_root, tail[1], more));
    }
}

/// What is asked of a compile reaches the compiler: its name, the source and the output, and behind
/// them each option that is set, with its value, and no other.
pub proof fn the_compiler_is_told_what_was_asked(
    request: CompileRequest,
    arg: Seq<char>,
    out: Seq<char>,
)
    ensures
        compiler_args(request, arg, out).take(4) == seq!["zc"@, arg, "-o"@, out],
        compiler_args(request, arg, out).len() == 4 + (if request.target is Some {
            2int
        } else {
            0
        }) + (if request.time {
            1int
        } else {
            0
        }) + (if request.test_mode {
            1int
        } else {
            0
        }) + (if request.wit is Some {
            2int
        } else {
            0
        }) + (if request.world is Some {
            2int
        } else {
            0
        }),
        request.target matches Some(t) ==> seq!["-t"@, t@] == compiler_args(
            request,
            arg,
            out,
        ).subrange(4, 6),
        request.world matches Some(w) ==> seq!["--world"@, w@].is_suffix_of(
            compiler_args(request, arg, out),
        ),
        ({
            let all = compiler_args(request, arg, out);
            let at: int = 4 + (if request.target is Some {
                2int
            } else {
                0
            });
            let behind: int = at + (if request.time {
                1int
            } else {
                0
            });
            let last: int = behind + (if request.test_mode {
                1int
            } else {
                0
            });
            &&& request.time ==> all[at] == "--time"@
            &&& request.test_mode ==> all[behind] == "--test"@
            &&& request.wit matches Some(w) ==> all[last] == "--wit"@ && all[last + 1] == w@
        }),
{
    let all = compiler_args(request, arg, out);
    let t: int = if request.target is Some {
        2
    } else {
        0
    };
    let m: int = if request.time {
        1
    } else {
        0
    };
    let e: int = if request.test_mode {
        1
    } else {
        0
    };
    assert(all.take(4) =~= seq!["zc"@, arg, "-o"@, out]);
    if request.target is Some {
        assert(all.subrange(4, 6) =~= seq!["-t"@, request.target->0@]);
    }
    if request.test_mode {
        assert(all[4 + t + m] == "--test"@);
    }
    if request.wit is Some {
        assert(all[4 + t + m + e] == "--wit"@ && all[4 + t + m + e + 1] == request.wit->0@);
    }
    if request.world is Some {
        let w = seq!["--world"@, request.world->0@];
        assert(all.subrange(all.len() - 2, all.len() as int) =~= w);
    }
}

/// Debugging and the level of the command line, and nothing else, are set for the compiler.
pub proof fn the_compiler_is_set_what_was_asked(debug: bool, opt_flag: Option<String>)
    ensures
        compiler_env(debug, opt_flag).len() == (if debug {
            1int
        } else {
            0
        }) + (if opt_flag is Some {
            1int
        } else {
            0
        }),
        debug ==> compiler_env(debug, opt_flag)[0] == ("ZENA_DEBUG_NAMES"@, "1"@),
        opt_flag matches Some(l) ==> compiler_env(debug, opt_flag).last() == ("ZENA_OPT_LEVEL"@, l@),
{
}

/// The compiler finds under `.` the repository, under `/stdlib` the standard library, and under
/// their own paths the cache and, where the source lies outside, its directory; nothing else.
pub proof fn the_compiler_sees_its_directories(
    repo_root: Seq<char>,
    cache_dir: Seq<char>,
    external: Seq<char>,
)
    ensures
        compiler_mounts(repo_root, cache_dir, None) == seq![
            (repo_root, "."@),
            (joined(repo_root, "packages/stdlib/zena"@), "/stdlib"@),
            (cache_dir, cache_dir),
        ],
        compiler_mounts(repo_root, cache_dir, Some(external)) == compiler_mounts(
            repo_root,
            cache_dir,
            None,
        ).push((external, external)),
{
    assert(compiler_mounts(repo_root, cache_dir, None) =~= seq![
        (repo_root, "."@),
        (joined(repo_root, "packages/stdlib/zena"@), "/stdlib"@),
        (cache_dir, cache_dir),
    ]);
    assert(compiler_mounts(repo_root, cache_dir, Some(external)) =~= compiler_mounts(
        repo_root,
        cache_dir,
        None,
    ).push((external, external)));
}

/// Compiles that agree in all that decides the artifact's bytes share it in one cache, whatever
/// else is asked of them and wherever they run: a cached artifact is found again.
pub proof fn equal_inputs_share_the_artifact(
    request: CompileRequest,
    site: CompileSite,
    plan: CompilePlan,
    other_request: CompileRequest,
    other: CompileSite,
    other_plan: CompilePlan,
)
    requires
        plan.key == key_digest(key_inputs(request, site).items()),
        plan.paths.cached@ == joined(
            site.cache_dir@,
            artifact_name(site.source@, plan.key, request.wat),
        ),
        other_plan.key == key_digest(key_inputs(other_request, other).items()),
        other_plan.paths.cached@ == joined(
            other.cache_dir@,
            artifact_name(other.source@, other_plan.key, other_request.wat),
        ),
        site.cache_dir@ == other.cache_dir@,
        site.source@ == other.source@,
        request.test_mode == other_request.test_mode,
        request.debug == other_request.debug,
        request.wat == other_request.wat,
        match (request.target, other_request.target) {
            (Some(t), Some(u)) => t@ == u@,
            (None, None) => true,
            _ => false,
        },
        site.compiler == other.compiler,
        site.manifest == other.manifest,
        same_setting(site.backend, other.backend),
        same_setting(site.wide_arithmetic, other.wide_arithmetic),
        same_setting(
            if site.opt_flag is Some {
                site.opt_flag
            } else {
                site.opt_env
            },
            if other.opt_flag is Some {
                other.opt_flag
            } else {
                other.opt_env
            },
        ),
        request.debug || same_setting(site.debug_names, other.debug_names),
        site.stdlib@ == other.stdlib@,
        site.package@ == other.package@,
    ensures
        plan.key == other_plan.key,
        plan.paths.cached@ == other_plan.paths.cached@,
{
    let a = key_inputs(request, site);
    let b = key_inputs(other_request, other);
    assert(text_or_empty(a.backend) =~= text_or_empty(b.backend));
    assert(text_or_empty(a.wide_arithmetic) =~= text_or_empty(b.wide_arithmetic));
    assert(text_or_empty(a.opt_level) =~= text_or_empty(b.opt_level));
    assert(text_or_empty(a.debug_names) =~= text_or_empty(b.debug_names));
    assert(opt_text(a.target) == opt_text(b.target));
    assert(a.items() =~= b.items());
}

/// Every directory is mapped from the guest's path to the host's.
pub proof fn maps_lead_from_the_guest_to_the_host(mounts: Seq<Mount>, i: int)
    requires
        0 <= i < mounts.len(),
    ensures
        flipped(mount_texts(mounts)).len() == mounts.len(),
        flipped(mount_texts(mounts))[i].0 == mounts[i].guest@,
        flipped(mount_texts(mounts))[i].1 == mounts[i].host@,
{
}

} // verus!

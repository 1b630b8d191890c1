//! The tool's own programs, which are written in Zena and run from the repository.
use vstd::prelude::*;

use crate::args::{flag_if, flag_with, push_flag_if, push_flag_with};
use crate::compile::{flipped, mount_texts, pair_texts, path_map_of, source_arg, Mount};
use crate::components::without_prefix;
use crate::guest::guest_args;
use crate::path::{join, joined};
use crate::text::{glue, texts};

verus! {

/// The program that runs the tests, from the repository root.
pub open spec fn test_runner() -> Seq<char> {
    "packages/zena-cli/zena/test-run.zena"@
}

/// The program that extracts documentation, from the repository root.
pub open spec fn doc_extractor() -> Seq<char> {
    "packages/zenadoc/zena/cli/main.zena"@
}

/// How one of the tool's own programs is run.
#[derive(Debug)]
pub struct ToolPlan {
    /// The program's source.
    pub source: String,
    pub args: Vec<String>,
    pub mounts: Vec<Mount>,
    /// The program may start processes.
    pub spawn: bool,
    /// The host's path of each directory that the program sees, by the guest's.
    pub path_map: Vec<(String, String)>,
}

/// Works out the run of one of the tool's own programs. It is named by its path from the
/// repository root, works there, sees the whole host, and may start processes: it is a tool of the
/// repository rather than a guest to be confined.
pub fn run_internal_tool(program: &str, args: &Vec<String>, repo_root: &str) -> (r: ToolPlan)
    ensures
        r.source@ == joined(repo_root@, program@),
        texts(r.args@) == seq![program@] + texts(args@),
        mount_texts(r.mounts@) == seq![(repo_root@, "."@), ("/"@, "/"@)],
        r.spawn,
        pair_texts(r.path_map@) == seq![("."@, repo_root@), ("/"@, "/"@)],
{
    let mut mounts: Vec<Mount> = Vec::new();
    mounts.push(Mount { host: repo_root.to_owned(), guest: ".".to_owned() });
    mounts.push(Mount { host: "/".to_owned(), guest: "/".to_owned() });
    assert(mount_texts(mounts@) =~= seq![(repo_root@, "."@), ("/"@, "/"@)]);
    let path_map: Vec<(String, String)> = path_map_of(&mounts);
    assert(flipped(mount_texts(mounts@)) =~= seq![("."@, repo_root@), ("/"@, "/"@)]);
    ToolPlan {
        source: join(repo_root, program),
        args: guest_args(program, args),
        mounts,
        spawn: true,
        path_map,
    }
}

/// Works out the run of the tests.
pub fn test_plan(args: &Vec<String>, repo_root: &str) -> (r: ToolPlan)
    ensures
        r.source@ == joined(repo_root@, test_runner()),
        texts(r.args@) == seq![test_runner()] + texts(args@),
        r.source@ == joined(repo_root@, "packages/zena-cli/zena/test-run.zena"@),
        texts(r.args@)[0] == "packages/zena-cli/zena/test-run.zena"@,
        mount_texts(r.mounts@) == seq![(repo_root@, "."@), ("/"@, "/"@)],
        r.spawn,
        pair_texts(r.path_map@) == seq![("."@, repo_root@), ("/"@, "/"@)],
{
    run_internal_tool("packages/zena-cli/zena/test-run.zena", args, repo_root)
}

/// What to say of a program without a `main`.
pub fn missing_main_message(program: &str) -> (r: String)
    ensures
        r@ == program@ + " has no main export"@,
{
    glue(program, " has no main export")
}

/// What to say of a program that failed.
pub fn failed_message(program: &str) -> (r: String)
    ensures
        r@ == program@ + " failed"@,
{
    glue(program, " failed")
}

/// What is documented, and how.
#[derive(Debug)]
pub struct DocRequest {
    /// The absolute path of what is documented.
    pub path: String,
    /// The absolute path of the output. Without one the output is printed.
    pub output: Option<String>,
    pub name: Option<String>,
    pub target: String,
    pub include_private: bool,
}

/// The arguments of the extractor. What lies in the repository is named from its root, so that
/// the paths in the output do not depend on where the repository lies.
pub open spec fn doc_args(request: DocRequest, repo_root: Seq<char>) -> Seq<Seq<char>> {
    seq![source_arg(request.path@, repo_root), "--target"@, request.target@] + flag_with(
        "-o"@,
        request.output,
    ) + flag_with("--name"@, request.name) + flag_if("--include-private"@, request.include_private)
}

/// Works out the run of the extractor.
pub fn run_doc(request: &DocRequest, repo_root: &str) -> (r: ToolPlan)
    ensures
        r.source@ == joined(repo_root@, doc_extractor()),
        texts(r.args@) == seq![doc_extractor()] + doc_args(*request, repo_root@),
        r.source@ == joined(repo_root@, "packages/zenadoc/zena/cli/main.zena"@),
        texts(r.args@)[0] == "packages/zenadoc/zena/cli/main.zena"@,
        mount_texts(r.mounts@) == seq![(repo_root@, "."@), ("/"@, "/"@)],
        r.spawn,
        pair_texts(r.path_map@) == seq![("."@, repo_root@), ("/"@, "/"@)],
{
    let input: String = match without_prefix(&request.path, repo_root) {
        Some(rest) => rest,
        None => request.path.clone(),
    };
    let mut args: Vec<String> = Vec::new();
    args.push(input);
    args.push("--target".to_owned());
    args.push(request.target.clone());
    assert(texts(args@) =~= seq![
        source_arg(request.path@, repo_root@),
        "--target"@,
        request.target@,
    ]);
    push_flag_with(&mut args, "-o", &request.output);
    push_flag_with(&mut args, "--name", &request.name);
    push_flag_if(&mut args, "--include-private", request.include_private);
    run_internal_tool("packages/zenadoc/zena/cli/main.zena", &args, repo_root)
}

/// What to say of a path that is not there, and cannot be documented.
pub fn missing_path_message(path: &str) -> (r: String)
    ensures
        r@ == "No such path: "@ + path@,
{
    glue("No such path: ", path)
}

/// The status to exit with after the extractor, where it is not that of success: the extractor's
/// own code. The output is written either way; another code than zero says that the package did
/// not check clean.
pub fn doc_exit(code: i32) -> (r: Option<i32>)
    ensures
        r == (if code != 0 {
            Some(code)
        } else {
            None
        }),
{
    if code != 0 {
        Some(code)
    } else {
        None
    }
}

/// What is said of tests that were run: their runner's exit code is zero where all passed.
pub fn tests_verdict(code: i32) -> (r: Result<(), String>)
    ensures
        match r {
            Ok(_) => code == 0,
            Err(message) => code != 0 && message@ == "Some tests failed"@,
        },
{
    if code == 0 {
        Ok(())
    } else {
        Err("Some tests failed".to_owned())
    }
}

/// What is asked of the extractor reaches it: first what is documented and the target, and behind
/// them each option that is set, with its value, and no other.
pub proof fn the_extractor_is_told_what_was_asked(request: DocRequest, repo_root: Seq<char>)
    ensures
        ({
            let all = doc_args(request, repo_root);
            let o: int = if request.output is Some {
                2
            } else {
                0
            };
            let n: int = if request.name is Some {
                2
            } else {
                0
            };
            let p: int = if request.include_private {
                1
            } else {
                0
            };
            &&& all.len() == 3 + o + n + p
            &&& all[0] == source_arg(request.path@, repo_root)
            &&& all[1] == "--target"@ && all[2] == request.target@
            &&& request.output matches Some(path) ==> all[3] == "-o"@ && all[4] == path@
            &&& request.name matches Some(name) ==> all[3 + o] == "--name"@ && all[4 + o] == name@
            &&& request.include_private ==> all[3 + o + n] == "--include-private"@
        }),
{
}

} // verus!

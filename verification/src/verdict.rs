//! Running one test: what the test file sees, how its run is judged, and what is reported.
use vstd::prelude::*;
use vstd::utf8::{decode_utf8, valid_utf8};

use crate::compile::{flipped, mount_texts, pair_texts, path_map_of, Mount};
use crate::guest::GuestValue;
use crate::text::{
    contains, contains_text, decode_lossy, found_texts_stand_between, glue, lossy_text, opt_text,
    texts,
};

verus! {

/// How a test ended.
#[derive(Clone, Copy, Debug, PartialEq, Eq, Structural)]
pub enum TestStatus {
    Pass,
    Fail,
}

/// How the run of a test file came to its end.
#[derive(Debug)]
pub enum TestEnd {
    /// The module could not be instantiated.
    NotInstantiated { error: String },
    /// The module has no `main`.
    NoMain,
    /// `main` trapped.
    Trapped { error: String, backtrace: Option<String> },
    /// `main` returned. `shown` is its first result, if it has one, as it is shown to the user.
    Returned { first: Option<GuestValue>, shown: String },
}

/// What is known of a test when it is over.
#[derive(Debug)]
pub struct TestReport {
    pub status: TestStatus,
    pub stdout: String,
    pub stderr: String,
    pub message: Option<String>,
}

/// A suite succeeds by returning nothing, or the 32-bit number zero.
pub open spec fn returned_zero(first: Option<GuestValue>) -> bool {
    match first {
        Some(v) => v == GuestValue::I32(0),
        None => true,
    }
}

/// A test passes where `main` returned success and nothing that it printed says `FAIL`.
pub open spec fn passes(stdout: Seq<char>, end: TestEnd) -> bool {
    match end {
        TestEnd::Returned { first, .. } => returned_zero(first) && !contains_text(
            stdout,
            "FAIL"@,
        ),
        _ => false,
    }
}

/// What the user is told of a test that failed.
pub open spec fn complaint(stdout: Seq<char>, end: TestEnd) -> Option<Seq<char>> {
    match end {
        TestEnd::NotInstantiated { error } => Some("Instantiation failed: "@ + error@),
        TestEnd::NoMain => Some("Failed to find `main` export"@),
        TestEnd::Trapped { error, backtrace } => Some(
            "Execution failed: "@ + error@ + (match backtrace {
                Some(bt) => "\nWasm Backtrace:\n"@ + bt@,
                None => Seq::empty(),
            }),
        ),
        TestEnd::Returned { first, shown } => if !returned_zero(first) {
            Some("Suite returned non-zero code: "@ + shown@)
        } else if contains_text(stdout, "FAIL"@) {
            Some("Suite reported failure in output"@)
        } else {
            None
        },
    }
}

/// What a test printed is reported once its `main` was called.
pub open spec fn reported_stdout(stdout: Seq<char>, end: TestEnd) -> Seq<char> {
    if end is NotInstantiated || end is NoMain {
        Seq::empty()
    } else {
        stdout
    }
}

/// What a test printed as errors is reported, but for a module without a `main`.
pub open spec fn reported_stderr(stderr: Seq<char>, end: TestEnd) -> Seq<char> {
    if end is NoMain {
        Seq::empty()
    } else {
        stderr
    }
}

/// Whether a result stands for success.
pub fn is_success(first: Option<GuestValue>) -> (r: bool)
    ensures
        r == returned_zero(first),
{
    match first {
        Some(GuestValue::I32(code)) => code == 0,
        Some(_) => false,
        None => true,
    }
}

/// Judges a test by its output and its end.
pub fn judge(stdout: String, stderr: String, end: TestEnd) -> (r: TestReport)
    ensures
        r.status == TestStatus::Pass <==> {
            &&& end matches TestEnd::Returned { first, .. }
            &&& first is None || first == Some(GuestValue::I32(0))
            &&& forall|a: Seq<char>, b: Seq<char>| stdout@ != #[trigger] (a + "FAIL"@ + b)
        },
        r.status == (if passes(stdout@, end) {
            TestStatus::Pass
        } else {
            TestStatus::Fail
        }),
        r.stdout@ == reported_stdout(stdout@, end),
        r.stderr@ == reported_stderr(stderr@, end),
        opt_text(r.message) == complaint(stdout@, end),
{
    proof {
        found_texts_stand_between(stdout@, "FAIL"@);
    }
    match end {
        TestEnd::NotInstantiated { error } => {
            let message: String = glue("Instantiation failed: ", &error);
            TestReport {
                status: TestStatus::Fail,
                stdout: String::new(),
                stderr,
                message: Some(message),
            }
        },
        TestEnd::NoMain => TestReport {
            status: TestStatus::Fail,
            stdout: String::new(),
            stderr: String::new(),
            message: Some("Failed to find `main` export".to_owned()),
        },
        TestEnd::Trapped { error, backtrace } => {
            let head: String = glue("Execution failed: ", &error);
            let message: String = match &backtrace {
                Some(bt) => {
                    let tail: String = glue("\nWasm Backtrace:\n", bt);
                    glue(&head, &tail)
                },
                None => {
                    assert(head@ + Seq::<char>::empty() =~= head@);
                    head
                },
            };
            TestReport { status: TestStatus::Fail, stdout, stderr, message: Some(message) }
        },
        TestEnd::Returned { first, shown } => {
            if !is_success(first) {
                let message: String = glue("Suite returned non-zero code: ", &shown);
                TestReport { status: TestStatus::Fail, stdout, stderr, message: Some(message) }
            } else if contains(&stdout, "FAIL") {
                let message: String = "Suite reported failure in output".to_owned();
                TestReport { status: TestStatus::Fail, stdout, stderr, message: Some(message) }
            } else {
                TestReport { status: TestStatus::Pass, stdout, stderr, message: None }
            }
        },
    }
}

/// Judges a test by what was captured of its output, and its end. Output that is valid UTF-8 is
/// taken as it is.
pub fn run_single_test(stdout: &[u8], stderr: &[u8], end: TestEnd) -> (r: TestReport)
    ensures
        r.status == TestStatus::Pass <==> {
            &&& end matches TestEnd::Returned { first, .. }
            &&& first is None || first == Some(GuestValue::I32(0))
            &&& forall|a: Seq<char>, b: Seq<char>|
                lossy_text(stdout@) != #[trigger] (a + "FAIL"@ + b)
        },
        r.status == (if passes(lossy_text(stdout@), end) {
            TestStatus::Pass
        } else {
            TestStatus::Fail
        }),
        r.stdout@ == reported_stdout(lossy_text(stdout@), end),
        r.stderr@ == reported_stderr(lossy_text(stderr@), end),
        opt_text(r.message) == complaint(lossy_text(stdout@), end),
        valid_utf8(stdout@) ==> lossy_text(stdout@) == decode_utf8(stdout@),
        valid_utf8(stderr@) ==> lossy_text(stderr@) == decode_utf8(stderr@),
{
    let out: String = decode_lossy(stdout);
    let err: String = decode_lossy(stderr);
    judge(out, err, end)
}

/// A test that passes is reported without a message, and one that fails with one.
pub proof fn failures_are_explained(stdout: Seq<char>, end: TestEnd)
    ensures
        passes(stdout, end) <==> complaint(stdout, end) is None,
{
}

/// However a suite's `main` comes out, one that printed `FAIL` does not pass.
pub proof fn printed_failures_count(stdout: Seq<char>, end: TestEnd)
    requires
        contains_text(stdout, "FAIL"@),
    ensures
        !passes(stdout, end),
{
}

// ---------------------------------------------------------------------------------------------
// The worker
// ---------------------------------------------------------------------------------------------
/// What a worker prints, and the code that it exits with.
#[derive(Debug)]
pub struct WorkerOutput {
    pub stdout: String,
    pub stderr: String,
    pub exit_code: i32,
}

/// The one file that a worker is given.
pub fn single_path(paths: &Vec<String>) -> (r: Result<String, String>)
    ensures
        match r {
            Ok(path) => paths@.len() == 1 && path@ == paths@[0]@,
            Err(message) => paths@.len() != 1 && message@
                == "test --single takes exactly one file"@,
        },
{
    if paths.len() == 1 {
        Ok(paths[0].clone())
    } else {
        Err("test --single takes exactly one file".to_owned())
    }
}

/// What a worker prints as errors: what its test did, and behind it the message of one that
/// failed.
pub open spec fn worker_stderr(report: TestReport) -> Seq<char> {
    match report.status {
        TestStatus::Pass => report.stderr@,
        TestStatus::Fail => report.stderr@ + (match report.message {
            Some(m) => m@ + "\n"@,
            None => Seq::empty(),
        }),
    }
}

/// A worker repeats what its test printed, on both streams, and exits with one where the test
/// failed.
pub fn run_single_test_worker(report: TestReport) -> (r: WorkerOutput)
    ensures
        r.stdout@ == report.stdout@,
        r.stderr@ == worker_stderr(report),
        r.exit_code == (if report.status == TestStatus::Pass {
            0i32
        } else {
            1i32
        }),
{
    match report.status {
        TestStatus::Pass => WorkerOutput {
            stdout: report.stdout,
            stderr: report.stderr,
            exit_code: 0,
        },
        TestStatus::Fail => {
            let stderr: String = match &report.message {
                Some(m) => {
                    let line: String = glue(m, "\n");
                    glue(&report.stderr, &line)
                },
                None => {
                    assert(report.stderr@ + Seq::<char>::empty() =~= report.stderr@);
                    report.stderr
                },
            };
            WorkerOutput { stdout: report.stdout, stderr, exit_code: 1 }
        },
    }
}

/// What a worker prints where its test could not be run at all.
pub fn worker_error(error: &str) -> (r: WorkerOutput)
    ensures
        r.stdout@ == Seq::<char>::empty(),
        r.stderr@ == "Error: "@ + error@ + "\n"@,
        r.exit_code == 1,
{
    let head: String = glue("Error: ", error);
    WorkerOutput { stdout: String::new(), stderr: glue(&head, "\n"), exit_code: 1 }
}

/// How a test file is run.
#[derive(Debug)]
pub struct TestPlan {
    pub args: Vec<String>,
    pub mounts: Vec<Mount>,
    /// The test may start processes.
    pub spawn: bool,
    /// The host's path of each directory that the test sees, by the guest's.
    pub path_map: Vec<(String, String)>,
}

/// Works out the run of a test file, given the canonical paths of its directories. It sees the
/// repository, the standard library, and the host's directory for temporary files, and may start
/// processes, whose directories are found by the same paths.
pub fn plan_test(test_file: &str, repo_root: &str, stdlib: &str, tmp: &str) -> (r: TestPlan)
    ensures
        texts(r.args@) == seq![test_file@],
        mount_texts(r.mounts@) == seq![(repo_root@, "."@), (stdlib@, "/stdlib"@), (tmp@, "/tmp"@)],
        r.spawn,
        pair_texts(r.path_map@) == seq![
            ("."@, repo_root@),
            ("/stdlib"@, stdlib@),
            ("/tmp"@, tmp@),
        ],
{
    let mut args: Vec<String> = Vec::new();
    args.push(test_file.to_owned());
    assert(texts(args@) =~= seq![test_file@]);
    let mut mounts: Vec<Mount> = Vec::new();
    mounts.push(Mount { host: repo_root.to_owned(), guest: ".".to_owned() });
    mounts.push(Mount { host: stdlib.to_owned(), guest: "/stdlib".to_owned() });
    mounts.push(Mount { host: tmp.to_owned(), guest: "/tmp".to_owned() });
    assert(mount_texts(mounts@) =~= seq![
        (repo_root@, "."@),
        (stdlib@, "/stdlib"@),
        (tmp@, "/tmp"@),
    ]);
    let path_map: Vec<(String, String)> = path_map_of(&mounts);
    assert(flipped(mount_texts(mounts@)) =~= seq![
        ("."@, repo_root@),
        ("/stdlib"@, stdlib@),
        ("/tmp"@, tmp@),
    ]);
    TestPlan { args, mounts, spawn: true, path_map }
}

/// Where `main` returned, the test passes exactly when it returned nothing or the 32-bit number
/// zero and `FAIL` stands nowhere in what it printed; every other number, and every value of
/// another type, fails it whatever was printed. Where `main` did not return, the test fails.
pub proof fn only_zero_and_silence_pass(
    stdout: Seq<char>,
    end: TestEnd,
    n: i32,
    m: i64,
    shown: String,
)
    ensures
        n != 0 ==> !passes(stdout, TestEnd::Returned { first: Some(GuestValue::I32(n)), shown }),
        !passes(stdout, TestEnd::Returned { first: Some(GuestValue::I64(m)), shown }),
        !passes(stdout, TestEnd::Returned { first: Some(GuestValue::Other), shown }),
        passes(stdout, TestEnd::Returned { first: Some(GuestValue::I32(0)), shown }) <==> !(exists|
            a: Seq<char>,
            b: Seq<char>,
        |
            stdout == #[trigger] (a + "FAIL"@ + b)),
        passes(stdout, TestEnd::Returned { first: None, shown }) <==> !(exists|
            a: Seq<char>,
            b: Seq<char>,
        |
            stdout == #[trigger] (a + "FAIL"@ + b)),
        !(end is Returned) ==> !passes(stdout, end),
{
    found_texts_stand_between(stdout, "FAIL"@);
}

/// What a test printed is reported whole, once its `main` was called, and its message says what was
/// wrong: the code before the output.
pub proof fn reports_say_what_was_wrong(stdout: Seq<char>, stderr: Seq<char>, end: TestEnd)
    ensures
        end is Returned || end is Trapped ==> reported_stdout(stdout, end) == stdout
            && reported_stderr(stderr, end) == stderr,
        end is NotInstantiated ==> reported_stdout(stdout, end).len() == 0 && reported_stderr(
            stderr,
            end,
        ) == stderr,
        end is NoMain ==> reported_stdout(stdout, end).len() == 0 && reported_stderr(
            stderr,
            end,
        ).len() == 0,
        end matches TestEnd::Returned { first, shown } ==> match first {
            Some(GuestValue::I32(0)) | None => complaint(stdout, end) == (if contains_text(
                stdout,
                "FAIL"@,
            ) {
                Some("Suite reported failure in output"@)
            } else {
                None
            }),
            _ => complaint(stdout, end) == Some("Suite returned non-zero code: "@ + shown@),
        },
        end matches TestEnd::NotInstantiated { error } ==> complaint(stdout, end) == Some(
            "Instantiation failed: "@ + error@,
        ),
        end is NoMain ==> complaint(stdout, end) == Some("Failed to find `main` export"@),
        end matches TestEnd::Trapped { error, backtrace } ==> complaint(stdout, end) == Some(
            match backtrace {
                Some(bt) => "Execution failed: "@ + error@ + ("\nWasm Backtrace:\n"@ + bt@),
                None => "Execution failed: "@ + error@,
            },
        ),
{
    if end is Trapped {
        assert(end matches TestEnd::Trapped { error, backtrace } && "Execution failed: "@ + error@
            + Seq::<char>::empty() =~= "Execution failed: "@ + error@);
    }
}

/// A worker prints all that its test reported, and the message behind it, and exits with zero
/// exactly when the test passed.
pub proof fn workers_hide_nothing(report: TestReport)
    ensures
        report.stderr@.is_prefix_of(worker_stderr(report)),
        report.status == TestStatus::Pass ==> worker_stderr(report) == report.stderr@,
        report.status == TestStatus::Fail && report.message is Some ==> worker_stderr(report)
            == report.stderr@ + report.message->0@ + "\n"@,
{
    let all = worker_stderr(report);
    assert(all.subrange(0, report.stderr@.len() as int) =~= report.stderr@);
    if report.message is Some {
        assert(report.stderr@ + (report.message->0@ + "\n"@) =~= report.stderr@
            + report.message->0@ + "\n"@);
    }
}

} // verus!

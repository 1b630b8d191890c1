//! Compiling a program into the cache, as a sequence of steps.
//!
//! The compiler writes to a temporary file that is then moved into place, under a lock, so that
//! nobody sees a partial artifact.
use vstd::prelude::*;
use vstd::utf8::{decode_utf8, valid_utf8};

use crate::stale::{cache_check, FileStamp, Timestamp};
use crate::text::{decode_lossy, glue, lossy_text, opt_str, opt_text};

verus! {

/// Why a program could not be compiled.
#[derive(Clone, Copy, Debug, PartialEq, Eq, Structural)]
pub enum CompileFailure {
    /// The lock file could not be opened or locked.
    Lock,
    /// The compiler could not be loaded or started.
    Setup,
    /// The compiler failed.
    Compiler,
    /// The compiler ended without its output.
    NotEmitted,
    /// The output could not be moved into place.
    Publish,
}

impl CompileFailure {
    /// The compiler had run.
    pub open spec fn ran(self) -> bool {
        self is Compiler || self is NotEmitted || self is Publish
    }
}

/// The next thing to do. The answer to a step is whether it succeeded, or whether what it asks
/// about holds.
#[derive(Clone, Copy, Debug, PartialEq, Eq, Structural)]
pub enum CompileStep {
    /// Is the cached artifact stale?
    CheckCache,
    /// Take the lock.
    Lock,
    /// Is it still stale, now that the lock is held?
    Recheck,
    /// Load the compiler, clear away an old temporary file, and make the compiler ready.
    Setup,
    /// Run the compiler.
    Run,
    /// Remove what a failed compiler left. The answer does not matter.
    DiscardFailed,
    /// Is the compiler's output there?
    CheckOutput,
    /// Move the output into place.
    Publish,
    /// Remove the output, which could not be moved. The answer does not matter.
    DiscardUnpublished,
    /// Print what is to be printed of this failure. The answer does not matter.
    Report(CompileFailure),
    /// The cached artifact is current and is used as it is.
    Reused,
    /// The artifact was compiled and is in its place.
    Published,
    /// There is no artifact.
    Failed(CompileFailure),
}

impl CompileStep {
    /// Nothing is left to do.
    pub open spec fn ended(self) -> bool {
        self is Reused || self is Published || self is Failed
    }

    /// The step that follows, given the answer to this one.
    pub open spec fn after(self, answer: bool) -> CompileStep {
        match self {
            CompileStep::CheckCache => if answer {
                CompileStep::Lock
            } else {
                CompileStep::Reused
            },
            CompileStep::Lock => if answer {
                CompileStep::Recheck
            } else {
                CompileStep::Failed(CompileFailure::Lock)
            },
            CompileStep::Recheck => if answer {
                CompileStep::Setup
            } else {
                CompileStep::Reused
            },
            CompileStep::Setup => if answer {
                CompileStep::Run
            } else {
                CompileStep::Failed(CompileFailure::Setup)
            },
            CompileStep::Run => if answer {
                CompileStep::CheckOutput
            } else {
                CompileStep::DiscardFailed
            },
            CompileStep::DiscardFailed => CompileStep::Report(CompileFailure::Compiler),
            CompileStep::CheckOutput => if answer {
                CompileStep::Publish
            } else {
                CompileStep::Report(CompileFailure::NotEmitted)
            },
            CompileStep::Publish => if answer {
                CompileStep::Published
            } else {
                CompileStep::DiscardUnpublished
            },
            CompileStep::DiscardUnpublished => CompileStep::Report(CompileFailure::Publish),
            CompileStep::Report(f) => CompileStep::Failed(f),
            CompileStep::Reused => CompileStep::Reused,
            CompileStep::Published => CompileStep::Published,
            CompileStep::Failed(f) => CompileStep::Failed(f),
        }
    }

    /// The step that follows, given the answer to this one.
    pub fn next(self, answer: bool) -> (r: CompileStep)
        ensures
            r == self.after(answer),
    {
        match self {
            CompileStep::CheckCache => if answer {
                CompileStep::Lock
            } else {
                CompileStep::Reused
            },
            CompileStep::Lock => if answer {
                CompileStep::Recheck
            } else {
                CompileStep::Failed(CompileFailure::Lock)
            },
            CompileStep::Recheck => if answer {
                CompileStep::Setup
            } else {
                CompileStep::Reused
            },
            CompileStep::Setup => if answer {
                CompileStep::Run
            } else {
                CompileStep::Failed(CompileFailure::Setup)
            },
            CompileStep::Run => if answer {
                CompileStep::CheckOutput
            } else {
                CompileStep::DiscardFailed
            },
            CompileStep::DiscardFailed => CompileStep::Report(CompileFailure::Compiler),
            CompileStep::CheckOutput => if answer {
                CompileStep::Publish
            } else {
                CompileStep::Report(CompileFailure::NotEmitted)
            },
            CompileStep::Publish => if answer {
                CompileStep::Published
            } else {
                CompileStep::DiscardUnpublished
            },
            CompileStep::DiscardUnpublished => CompileStep::Report(CompileFailure::Publish),
            CompileStep::Report(f) => CompileStep::Failed(f),
            CompileStep::Reused => CompileStep::Reused,
            CompileStep::Published => CompileStep::Published,
            CompileStep::Failed(f) => CompileStep::Failed(f),
        }
    }

    /// How many answers bring a compile to this step, where it has not ended.
    pub open spec fn depth(self) -> nat {
        match self {
            CompileStep::CheckCache => 0,
            CompileStep::Lock => 1,
            CompileStep::Recheck => 2,
            CompileStep::Setup => 3,
            CompileStep::Run => 4,
            CompileStep::DiscardFailed => 5,
            CompileStep::CheckOutput => 5,
            CompileStep::Publish => 6,
            CompileStep::DiscardUnpublished => 7,
            CompileStep::Report(CompileFailure::Publish) => 8,
            CompileStep::Report(_) => 6,
            _ => 9,
        }
    }
}

/// Where a compile stands after these answers.
pub open spec fn compile_after(answers: Seq<bool>) -> CompileStep
    decreases answers.len(),
{
    if answers.len() == 0 {
        CompileStep::CheckCache
    } else {
        compile_after(answers.drop_last()).after(answers.last())
    }
}

/// The answers up to where the compile stands now say how it came there.
proof fn lemma_history(answers: Seq<bool>)
    ensures
        ({
            let s = compile_after(answers);
            &&& !s.ended() ==> s.depth() == answers.len()
            &&& s.depth() >= 1 && !s.ended() ==> answers[0]
            &&& s.depth() >= 2 && !s.ended() ==> answers[1]
            &&& s.depth() >= 3 && !s.ended() ==> answers[2]
            &&& s.depth() >= 4 && !s.ended() ==> answers[3]
            &&& (s is CheckOutput || s is Publish || s is DiscardUnpublished) ==> answers[4]
            &&& (s is Publish || s is DiscardUnpublished) ==> answers[5]
            &&& s is DiscardFailed ==> !answers[4]
            &&& s is DiscardUnpublished ==> !answers[6]
            &&& s matches CompileStep::Report(f) ==> f.ran()
            &&& s is Reused ==> answers.len() >= 1 && (!answers[0] || (answers.len() >= 3
                && !answers[2]))
            &&& s is Published ==> answers.len() >= 7 && answers[4] && answers[5] && answers[6]
        }),
    decreases answers.len(),
{
    if answers.len() > 0 {
        lemma_history(answers.drop_last());
    }
}

/// A compile ends, whatever the answers, after at most nine of them.
pub proof fn compile_ends(answers: Seq<bool>)
    requires
        answers.len() >= 9,
    ensures
        compile_after(answers).ended(),
{
    lemma_history(answers);
}

/// An artifact is put in its place only after the compiler succeeded, its output was there, and
/// the move succeeded.
pub proof fn only_whole_output_is_published(answers: Seq<bool>)
    requires
        compile_after(answers) is Published,
    ensures
        answers.len() >= 7,
        answers[4],
        answers[5],
        answers[6],
{
    lemma_history(answers);
}

/// A cached artifact is used as it is only where one of the two checks found it current.
pub proof fn reuse_needs_a_current_check(answers: Seq<bool>)
    requires
        compile_after(answers) is Reused,
    ensures
        answers.len() >= 1,
        !answers[0] || (answers.len() >= 3 && !answers[2]),
{
    lemma_history(answers);
}

/// A forced compile is never answered from the cache, whatever the files' stamps are.
pub proof fn forced_compiles_never_reuse(
    answers: Seq<bool>,
    first: (Option<FileStamp>, Option<Timestamp>, Option<Timestamp>),
    second: (Option<FileStamp>, Option<Timestamp>, Option<Timestamp>),
)
    requires
        answers.len() >= 1 ==> answers[0] == cache_check(first.0, first.1, first.2, true).stale(),
        answers.len() >= 3 ==> answers[2] == cache_check(
            second.0,
            second.1,
            second.2,
            true,
        ).stale(),
    ensures
        !(compile_after(answers) is Reused),
{
    lemma_history(answers);
}

/// The compiler is made ready only where the artifact was found stale again under the lock.
pub proof fn compiles_only_under_the_lock(step: CompileStep, answer: bool)
    ensures
        step.after(answer) is Setup ==> step is Recheck && answer,
        step.after(answer) is Recheck ==> step is Lock && answer,
        step.after(answer) is Run ==> step is Setup && answer,
{
}

/// Every failure that may leave a temporary file behind removes it first.
pub proof fn failed_output_is_discarded(step: CompileStep, answer: bool)
    ensures
        step is Run && !answer ==> step.after(answer) is DiscardFailed,
        step is Publish && !answer ==> step.after(answer) is DiscardUnpublished,
        step.after(answer) == CompileStep::Report(CompileFailure::Compiler) ==> step
            is DiscardFailed,
        step.after(answer) == CompileStep::Report(CompileFailure::Publish) ==> step
            is DiscardUnpublished,
{
}

/// Whatever fails once the compiler has run is reported before the compile ends, and no other
/// compile is.
pub proof fn failures_of_a_run_are_reported(answers: Seq<bool>, answer: bool)
    ensures
        !compile_after(answers).ended() ==> (compile_after(answers).after(
            answer,
        ) matches CompileStep::Failed(f) ==> (f.ran() <==> compile_after(answers)
            == CompileStep::Report(f))),
        compile_after(answers) matches CompileStep::Report(f) ==> f.ran() && answers.len() >= 5
            && answers[0] && answers[1] && answers[2] && answers[3],
{
    lemma_history(answers);
}

/// What to tell the user of a failure that the compile itself decided. The other failures carry
/// their own message.
pub open spec fn failure_text(failure: CompileFailure, temp: Seq<char>) -> Option<Seq<char>> {
    match failure {
        CompileFailure::Compiler => Some("Compilation failed"@),
        CompileFailure::NotEmitted => Some(
            "Compiler did not emit expected WebAssembly file to "@ + temp + "."@,
        ),
        _ => None,
    }
}

/// What to tell the user of a failure that the compile itself decided.
pub fn failure_message(failure: CompileFailure, temp: &str) -> (r: Option<String>)
    ensures
        opt_text(r) == failure_text(failure, temp@),
{
    match failure {
        CompileFailure::Compiler => Some("Compilation failed".to_owned()),
        CompileFailure::NotEmitted => {
            let head: String = glue("Compiler did not emit expected WebAssembly file to ", temp);
            Some(glue(&head, "."))
        },
        _ => None,
    }
}

/// A labelled block of text on lines of its own.
pub open spec fn block(label: Seq<char>, body: Option<Seq<char>>) -> Seq<char> {
    match body {
        Some(text) => label + text + "\n"@,
        None => Seq::empty(),
    }
}

/// What is printed of a compiler that failed: its error, where it failed, and what it printed,
/// errors first, as far as that was kept back.
pub open spec fn failure_report(
    error: Seq<char>,
    backtrace: Option<Seq<char>>,
    stderr: Option<Seq<char>>,
    stdout: Option<Seq<char>>,
) -> Seq<char> {
    block("Compiler failed with error: "@, Some(error)) + block(
        "Wasm Backtrace:\n"@,
        backtrace,
    ) + block("Compiler Stderr:\n"@, stderr) + block("Compiler Stdout:\n"@, stdout)
}

/// All that a compiler printed, errors first, as far as that was kept back.
pub open spec fn replayed_output(stderr: Option<Seq<char>>, stdout: Option<Seq<char>>) -> Seq<
    char,
> {
    block("Compiler Stderr:\n"@, stderr) + block("Compiler Stdout:\n"@, stdout)
}

/// What is printed of a failure. A compiler that failed is always reported. Of one that did not,
/// where the compile fails all the same, what was kept back is shown only to those who asked for
/// that.
pub open spec fn printed(
    failure: CompileFailure,
    replay: bool,
    error: Seq<char>,
    backtrace: Option<Seq<char>>,
    stderr: Option<Seq<char>>,
    stdout: Option<Seq<char>>,
) -> Seq<char> {
    if failure is Compiler {
        failure_report(error, backtrace, stderr, stdout)
    } else if failure.ran() && replay {
        replayed_output(stderr, stdout)
    } else {
        Seq::empty()
    }
}

fn push_block(out: &mut String, label: &str, body: Option<&str>)
    ensures
        final(out)@ == old(out)@ + block(label@, opt_str(body)),
{
    match body {
        Some(text) => {
            out.append(label);
            out.append(text);
            out.append("\n");
            assert(out@ =~= old(out)@ + (label@ + text@ + "\n"@));
        },
        None => {
            assert(out@ =~= old(out)@ + Seq::<char>::empty());
        },
    }
}

/// What is printed of a failure.
pub fn report_failure(
    failure: CompileFailure,
    replay: bool,
    error: &str,
    backtrace: Option<&str>,
    stderr: Option<&str>,
    stdout: Option<&str>,
) -> (r: String)
    ensures
        r@ == printed(
            failure,
            replay,
            error@,
            opt_str(backtrace),
            opt_str(stderr),
            opt_str(stdout),
        ),
{
    let mut out: String = String::new();
    match failure {
        CompileFailure::Compiler => {
            push_block(&mut out, "Compiler failed with error: ", Some(error));
            push_block(&mut out, "Wasm Backtrace:\n", backtrace);
            push_block(&mut out, "Compiler Stderr:\n", stderr);
            push_block(&mut out, "Compiler Stdout:\n", stdout);
            assert(Seq::<char>::empty() + block("Compiler failed with error: "@, Some(error@))
                =~= block("Compiler failed with error: "@, Some(error@)));
        },
        CompileFailure::NotEmitted | CompileFailure::Publish => {
            if replay {
                push_block(&mut out, "Compiler Stderr:\n", stderr);
                push_block(&mut out, "Compiler Stdout:\n", stdout);
                assert(Seq::<char>::empty() + block("Compiler Stderr:\n"@, opt_str(stderr)) =~= block(
                    "Compiler Stderr:\n"@,
                    opt_str(stderr),
                ));
            }
        },
        _ => {},
    }
    out
}

/// The text of output that was kept back as bytes.
pub open spec fn opt_lossy(bytes: Option<&[u8]>) -> Option<Seq<char>> {
    match bytes {
        Some(b) => Some(lossy_text(b@)),
        None => None,
    }
}

/// What is printed of a failure, with the compiler's output as it was kept back, if it was. Output
/// that is valid UTF-8 is taken as it is.
pub fn report_captured_failure(
    failure: CompileFailure,
    replay: bool,
    error: &str,
    backtrace: Option<&str>,
    stderr: Option<&[u8]>,
    stdout: Option<&[u8]>,
) -> (r: String)
    ensures
        r@ == printed(
            failure,
            replay,
            error@,
            opt_str(backtrace),
            opt_lossy(stderr),
            opt_lossy(stdout),
        ),
        stderr matches Some(b) ==> (valid_utf8(b@) ==> lossy_text(b@) == decode_utf8(b@)),
        stdout matches Some(b) ==> (valid_utf8(b@) ==> lossy_text(b@) == decode_utf8(b@)),
{
    let err: Option<String> = match stderr {
        Some(b) => Some(decode_lossy(b)),
        None => None,
    };
    let out: Option<String> = match stdout {
        Some(b) => Some(decode_lossy(b)),
        None => None,
    };
    report_failure(
        failure,
        replay,
        error,
        backtrace,
        match &err {
            Some(t) => Some(t.as_str()),
            None => None,
        },
        match &out {
            Some(t) => Some(t.as_str()),
            None => None,
        },
    )
}

/// Those who asked for it see all that was kept back, whatever fails once the compiler has run.
pub proof fn kept_back_output_is_replayed(
    failure: CompileFailure,
    error: Seq<char>,
    backtrace: Option<Seq<char>>,
    stderr: Option<Seq<char>>,
    stdout: Option<Seq<char>>,
)
    requires
        failure.ran(),
    ensures
        replayed_output(stderr, stdout).is_suffix_of(
            printed(failure, true, error, backtrace, stderr, stdout),
        ),
{
    let all = printed(failure, true, error, backtrace, stderr, stdout);
    let end = replayed_output(stderr, stdout);
    assert(all.subrange(all.len() - end.len(), all.len() as int) =~= end);
}

/// Every step has its cause: the answer that leads to it, and no other. So each failure says what
/// failed, and each check that finds the artifact current ends the compile.
pub proof fn every_compile_step_has_its_cause(step: CompileStep, answer: bool)
    ensures
        step.after(answer) != CompileStep::CheckCache,
        step.after(answer) is Lock <==> step is CheckCache && answer,
        step.after(answer) is Recheck <==> step is Lock && answer,
        step.after(answer) is Setup <==> step is Recheck && answer,
        step.after(answer) is Run <==> step is Setup && answer,
        step.after(answer) is CheckOutput <==> step is Run && answer,
        step.after(answer) is DiscardFailed <==> step is Run && !answer,
        step.after(answer) is Publish <==> step is CheckOutput && answer,
        step.after(answer) is DiscardUnpublished <==> step is Publish && !answer,
        step.after(answer) == CompileStep::Report(CompileFailure::Compiler) <==> step
            is DiscardFailed,
        step.after(answer) == CompileStep::Report(CompileFailure::NotEmitted) <==> step
            is CheckOutput && !answer,
        step.after(answer) == CompileStep::Report(CompileFailure::Publish) <==> step
            is DiscardUnpublished,
        step.after(answer) != CompileStep::Report(CompileFailure::Lock),
        step.after(answer) != CompileStep::Report(CompileFailure::Setup),
        step.after(answer) is Reused <==> {
            ||| (step is CheckCache || step is Recheck) && !answer
            ||| step is Reused
        },
        step.after(answer) is Published <==> step is Publish && answer || step is Published,
        step is Lock && !answer ==> step.after(answer) == CompileStep::Failed(CompileFailure::Lock),
        step is Setup && !answer ==> step.after(answer) == CompileStep::Failed(
            CompileFailure::Setup,
        ),
        step matches CompileStep::Report(f) ==> step.after(answer) == CompileStep::Failed(f),
        step matches CompileStep::Failed(f) ==> step.after(answer) == CompileStep::Failed(f),
        step.after(answer) is Failed ==> step is Report || step is Failed || ((step is Lock || step
            is Setup) && !answer),
{
}

/// A compiler that failed is reported with its error, and with each of the backtrace, its errors
/// and its output that there is, in that order, under a heading of its own. Of one that did not
/// fail, its errors and its output are shown, to those who asked. Nothing is printed of a compiler
/// that did not run.
pub proof fn reports_hold_what_there_is(
    failure: CompileFailure,
    replay: bool,
    error: Seq<char>,
    backtrace: Seq<char>,
    stderr: Seq<char>,
    stdout: Seq<char>,
)
    ensures
        printed(CompileFailure::Compiler, replay, error, None, None, None)
            == "Compiler failed with error: "@ + error + "\n"@,
        printed(CompileFailure::Compiler, replay, error, Some(backtrace), None, None) == printed(
            CompileFailure::Compiler,
            replay,
            error,
            None,
            None,
            None,
        ) + "Wasm Backtrace:\n"@ + backtrace + "\n"@,
        forall|b: Option<Seq<char>>|
            #![trigger printed(CompileFailure::Compiler, replay, error, b, Some(stderr), None)]
            printed(CompileFailure::Compiler, replay, error, b, Some(stderr), None) == printed(
                CompileFailure::Compiler,
                replay,
                error,
                b,
                None,
                None,
            ) + "Compiler Stderr:\n"@ + stderr + "\n"@,
        forall|b: Option<Seq<char>>, e: Option<Seq<char>>|
            #![trigger printed(failure, replay, error, b, e, Some(stdout))]
            (failure is Compiler || (replay && (failure is NotEmitted || failure is Publish)))
                ==> printed(failure, replay, error, b, e, Some(stdout)) == printed(
                failure,
                replay,
                error,
                b,
                e,
                None,
            ) + "Compiler Stdout:\n"@ + stdout + "\n"@,
        replay && (failure is NotEmitted || failure is Publish) ==> printed(
            failure,
            replay,
            error,
            Some(backtrace),
            Some(stderr),
            None,
        ) == "Compiler Stderr:\n"@ + stderr + "\n"@ && printed(
            failure,
            replay,
            error,
            Some(backtrace),
            None,
            None,
        ).len() == 0,
        failure is Lock || failure is Setup || (!replay && !(failure is Compiler)) ==> forall|
            b: Option<Seq<char>>,
            e: Option<Seq<char>>,
            o: Option<Seq<char>>,
        | (#[trigger] printed(failure, replay, error, b, e, o)).len() == 0,
{
    let c = CompileFailure::Compiler;
    let head = "Compiler failed with error: "@ + error + "\n"@;
    assert(printed(c, replay, error, None, None, None) =~= head);
    assert(printed(c, replay, error, Some(backtrace), None, None) =~= head + "Wasm Backtrace:\n"@
        + backtrace + "\n"@);
    assert forall|b: Option<Seq<char>>|
        #![trigger printed(c, replay, error, b, Some(stderr), None)]
        printed(c, replay, error, b, Some(stderr), None) == printed(c, replay, error, b, None, None)
            + "Compiler Stderr:\n"@ + stderr + "\n"@ by {
        assert(printed(c, replay, error, b, Some(stderr), None) =~= printed(
            c,
            replay,
            error,
            b,
            None,
            None,
        ) + "Compiler Stderr:\n"@ + stderr + "\n"@);
    }
    assert forall|b: Option<Seq<char>>, e: Option<Seq<char>>|
        #![trigger printed(failure, replay, error, b, e, Some(stdout))]
        (failure is Compiler || (replay && (failure is NotEmitted || failure is Publish)))
            implies printed(failure, replay, error, b, e, Some(stdout)) == printed(
        failure,
        replay,
        error,
        b,
        e,
        None,
    ) + "Compiler Stdout:\n"@ + stdout + "\n"@ by {
        assert(printed(failure, replay, error, b, e, Some(stdout)) =~= printed(
            failure,
            replay,
            error,
            b,
            e,
            None,
        ) + "Compiler Stdout:\n"@ + stdout + "\n"@);
    }
    if replay && (failure is NotEmitted || failure is Publish) {
        assert(printed(failure, replay, error, Some(backtrace), Some(stderr), None)
            =~= "Compiler Stderr:\n"@ + stderr + "\n"@);
    }
}

/// A compiler that failed, and one that left no output, are told of by a message of their own; the
/// second names the file that is missing. No other failure has one.
pub proof fn failures_of_the_compiler_are_named(failure: CompileFailure, temp: Seq<char>)
    ensures
        failure is Compiler ==> failure_text(failure, temp) == Some("Compilation failed"@),
        failure is NotEmitted ==> failure_text(failure, temp) == Some(
            "Compiler did not emit expected WebAssembly file to "@ + temp + "."@,
        ),
        failure_text(failure, temp) is Some <==> failure is Compiler || failure is NotEmitted,
{
}

} // verus!

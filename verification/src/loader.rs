//! Loading a compiled module through its precompiled form on disk, as a sequence of steps.
//!
//! Each step is a question to the file system or the engine, and its answer decides the next
//! step. The lock lets one process compile while the others wait and then reuse its output.
use vstd::prelude::*;

use crate::number::{decimal, numeral_is_injective, to_decimal};
use crate::path::{file_name, set_extension, with_extension};
use crate::text::glue;

verus! {

/// Why a module could not be loaded.
#[derive(Clone, Copy, Debug, PartialEq, Eq, Structural)]
pub enum LoadFailure {
    /// The lock file could not be opened or locked.
    Lock,
    /// The wasm file could not be read.
    Read,
    /// The engine could not compile the module.
    Compile,
    /// The temporary file could not be written.
    Write,
    /// The temporary file could not be moved into place.
    Publish,
}

/// The next thing to do. The answer to a step is whether it succeeded, or whether what it asks
/// about holds.
#[derive(Clone, Copy, Debug, PartialEq, Eq, Structural)]
pub enum LoadStep {
    /// Is the precompiled module stale?
    CheckStale,
    /// Take the lock. With `forced` the module is compiled whatever its age.
    Lock { forced: bool },
    /// Is it still stale, now that the lock is held?
    Recheck,
    /// Read the wasm file.
    Read { forced: bool },
    /// Precompile the module.
    Precompile { forced: bool },
    /// Write the precompiled bytes to the temporary file.
    WriteTemp { forced: bool },
    /// Move the temporary file into place.
    Publish { forced: bool },
    /// Remove the temporary file, which could not be moved. The answer does not matter.
    Discard,
    /// Load the precompiled module. With `retried` it was compiled anew after a first try.
    Deserialize { retried: bool },
    /// Read the wasm file, to compile it in this process.
    ReadInProcess,
    /// Compile the module in this process.
    CompileInProcess,
    /// The module is loaded.
    Loaded,
    /// The module cannot be loaded.
    Failed(LoadFailure),
}

impl LoadStep {
    /// Nothing is left to do.
    pub open spec fn ended(self) -> bool {
        self is Loaded || self is Failed
    }

    /// The step that follows, given the answer to this one.
    pub open spec fn after(self, answer: bool) -> LoadStep {
        match self {
            LoadStep::CheckStale => if answer {
                LoadStep::Lock { forced: false }
            } else {
                LoadStep::Deserialize { retried: false }
            },
            LoadStep::Lock { forced } => if !answer {
                LoadStep::Failed(LoadFailure::Lock)
            } else if forced {
                LoadStep::Read { forced: true }
            } else {
                LoadStep::Recheck
            },
            LoadStep::Recheck => if answer {
                LoadStep::Read { forced: false }
            } else {
                LoadStep::Deserialize { retried: false }
            },
            LoadStep::Read { forced } => if answer {
                LoadStep::Precompile { forced }
            } else {
                LoadStep::Failed(LoadFailure::Read)
            },
            LoadStep::Precompile { forced } => if answer {
                LoadStep::WriteTemp { forced }
            } else {
                LoadStep::Failed(LoadFailure::Compile)
            },
            LoadStep::WriteTemp { forced } => if answer {
                LoadStep::Publish { forced }
            } else {
                LoadStep::Failed(LoadFailure::Write)
            },
            LoadStep::Publish { forced } => if answer {
                LoadStep::Deserialize { retried: forced }
            } else {
                LoadStep::Discard
            },
            LoadStep::Discard => LoadStep::Failed(LoadFailure::Publish),
            LoadStep::Deserialize { retried } => if answer {
                LoadStep::Loaded
            } else if retried {
                LoadStep::ReadInProcess
            } else {
                LoadStep::Lock { forced: true }
            },
            LoadStep::ReadInProcess => if answer {
                LoadStep::CompileInProcess
            } else {
                LoadStep::Failed(LoadFailure::Read)
            },
            LoadStep::CompileInProcess => if answer {
                LoadStep::Loaded
            } else {
                LoadStep::Failed(LoadFailure::Compile)
            },
            LoadStep::Loaded => LoadStep::Loaded,
            LoadStep::Failed(f) => LoadStep::Failed(f),
        }
    }

    /// The step that follows, given the answer to this one.
    pub fn next(self, answer: bool) -> (r: LoadStep)
        ensures
            r == self.after(answer),
    {
        match self {
            LoadStep::CheckStale => if answer {
                LoadStep::Lock { forced: false }
            } else {
                LoadStep::Deserialize { retried: false }
            },
            LoadStep::Lock { forced } => if !answer {
                LoadStep::Failed(LoadFailure::Lock)
            } else if forced {
                LoadStep::Read { forced: true }
            } else {
                LoadStep::Recheck
            },
            LoadStep::Recheck => if answer {
                LoadStep::Read { forced: false }
            } else {
                LoadStep::Deserialize { retried: false }
            },
            LoadStep::Read { forced } => if answer {
                LoadStep::Precompile { forced }
            } else {
                LoadStep::Failed(LoadFailure::Read)
            },
            LoadStep::Precompile { forced } => if answer {
                LoadStep::WriteTemp { forced }
            } else {
                LoadStep::Failed(LoadFailure::Compile)
            },
            LoadStep::WriteTemp { forced } => if answer {
                LoadStep::Publish { forced }
            } else {
                LoadStep::Failed(LoadFailure::Write)
            },
            LoadStep::Publish { forced } => if answer {
                LoadStep::Deserialize { retried: forced }
            } else {
                LoadStep::Discard
            },
            LoadStep::Discard => LoadStep::Failed(LoadFailure::Publish),
            LoadStep::Deserialize { retried } => if answer {
                LoadStep::Loaded
            } else if retried {
                LoadStep::ReadInProcess
            } else {
                LoadStep::Lock { forced: true }
            },
            LoadStep::ReadInProcess => if answer {
                LoadStep::CompileInProcess
            } else {
                LoadStep::Failed(LoadFailure::Read)
            },
            LoadStep::CompileInProcess => if answer {
                LoadStep::Loaded
            } else {
                LoadStep::Failed(LoadFailure::Compile)
            },
            LoadStep::Loaded => LoadStep::Loaded,
            LoadStep::Failed(f) => LoadStep::Failed(f),
        }
    }

    /// How many steps are left at most.
    pub open spec fn left(self) -> nat {
        match self {
            LoadStep::CheckStale => 16,
            LoadStep::Lock { forced } => if forced {
                8
            } else {
                15
            },
            LoadStep::Recheck => 14,
            LoadStep::Read { forced } => if forced {
                7
            } else {
                13
            },
            LoadStep::Precompile { forced } => if forced {
                6
            } else {
                12
            },
            LoadStep::WriteTemp { forced } => if forced {
                5
            } else {
                11
            },
            LoadStep::Publish { forced } => if forced {
                4
            } else {
                10
            },
            LoadStep::Discard => 1,
            LoadStep::Deserialize { retried } => if retried {
                3
            } else {
                9
            },
            LoadStep::ReadInProcess => 2,
            LoadStep::CompileInProcess => 1,
            LoadStep::Loaded => 0,
            LoadStep::Failed(_) => 0,
        }
    }
}

/// Where a load stands after these answers.
pub open spec fn load_after(answers: Seq<bool>) -> LoadStep
    decreases answers.len(),
{
    if answers.len() == 0 {
        LoadStep::CheckStale
    } else {
        load_after(answers.drop_last()).after(answers.last())
    }
}

/// A load ends, whatever the answers, after at most sixteen of them.
pub proof fn load_ends(answers: Seq<bool>)
    ensures
        answers.len() >= 16 ==> load_after(answers).ended(),
        load_after(answers).left() + answers.len() <= 16 || load_after(answers).ended(),
    decreases answers.len(),
{
    if answers.len() > 0 {
        load_ends(answers.drop_last());
    }
}

/// The precompiled file is loaded only where it was current, or after a complete file was moved
/// into its place: nobody reads a file that is being written.
pub proof fn only_complete_files_are_loaded(step: LoadStep, answer: bool)
    requires
        step.after(answer) is Deserialize,
    ensures
        (step is CheckStale && !answer) || (step is Recheck && !answer) || (step is Publish
            && answer),
{
}

/// A temporary file that could not be moved into place is removed before the load fails.
pub proof fn unpublished_files_are_discarded(step: LoadStep, answer: bool)
    ensures
        step is Publish && !answer ==> step.after(answer) is Discard,
        step.after(answer) == LoadStep::Failed(LoadFailure::Publish) ==> step is Discard || step
            == LoadStep::Failed(LoadFailure::Publish),
{
}

/// A precompiled module is compiled anew at most once after it failed to load, and the module is
/// compiled in this process only after that, too, failed to load.
pub proof fn recompiles_once(step: LoadStep, answer: bool)
    ensures
        step.after(answer) == (LoadStep::Lock { forced: true }) ==> step == (LoadStep::Deserialize {
            retried: false,
        }) && !answer,
        step.after(answer) is ReadInProcess ==> step == (LoadStep::Deserialize { retried: true })
            && !answer,
        step.after(answer) == (LoadStep::Deserialize { retried: true }) ==> step == (
        LoadStep::Publish { forced: true }) && answer,
{
}

/// A module is read to be precompiled only with the lock held: where it was found stale again
/// under the lock, or right after taking the lock for a module that failed to load.
pub proof fn precompiles_only_under_the_lock(step: LoadStep, answer: bool)
    ensures
        step.after(answer) == (LoadStep::Read { forced: false }) ==> step is Recheck && answer,
        step.after(answer) == (LoadStep::Read { forced: true }) ==> step == (LoadStep::Lock {
            forced: true,
        }) && answer,
        step.after(answer) is Recheck ==> step == (LoadStep::Lock { forced: false }) && answer,
        step.after(answer) is Precompile ==> step is Read && answer,
{
}

/// A precompiled module that an engine refuses is compiled anew under the lock, moved into place
/// and loaded instead: where each of these succeeds, the load does.
pub proof fn refused_modules_are_replaced(answers: Seq<bool>)
    requires
        load_after(answers) == (LoadStep::Deserialize { retried: false }),
    ensures
        ({
            let refused = answers.push(false);
            let locked = refused.push(true);
            let read = locked.push(true);
            let compiled = read.push(true);
            let written = compiled.push(true);
            let moved = written.push(true);
            &&& load_after(refused) == (LoadStep::Lock { forced: true })
            &&& load_after(locked) == (LoadStep::Read { forced: true })
            &&& load_after(read) == (LoadStep::Precompile { forced: true })
            &&& load_after(compiled) == (LoadStep::WriteTemp { forced: true })
            &&& load_after(written) == (LoadStep::Publish { forced: true })
            &&& load_after(moved) == (LoadStep::Deserialize { retried: true })
            &&& load_after(moved.push(true)) is Loaded
        }),
{
    let refused = answers.push(false);
    let locked = refused.push(true);
    let read = locked.push(true);
    let compiled = read.push(true);
    let written = compiled.push(true);
    let moved = written.push(true);
    assert(refused.drop_last() =~= answers);
    assert(locked.drop_last() =~= refused);
    assert(read.drop_last() =~= locked);
    assert(compiled.drop_last() =~= read);
    assert(written.drop_last() =~= compiled);
    assert(moved.drop_last() =~= written);
    assert(moved.push(true).drop_last() =~= moved);
}

/// A current precompiled module that loads is not compiled again.
pub proof fn current_modules_are_reused(answers: Seq<bool>)
    requires
        answers.len() == 2,
        !answers[0],
        answers[1],
    ensures
        load_after(answers) is Loaded,
{
    reveal_with_fuel(load_after, 3);
    assert(answers.drop_last().drop_last().len() == 0);
}

/// The files beside a precompiled module while it is written.
#[derive(Debug)]
pub struct CwasmFiles {
    pub lock: String,
    pub temp: String,
}

/// The temporary file that a process writes a precompiled module to.
pub open spec fn cwasm_temp(cwasm: Seq<char>, pid: u32) -> Seq<char> {
    with_extension(cwasm, "tmp-"@ + decimal(pid as int))
}

/// The lock that serializes those who write a precompiled module.
pub open spec fn cwasm_lock(cwasm: Seq<char>) -> Seq<char> {
    with_extension(cwasm, "lock"@)
}

/// The files that a process uses to write a precompiled module.
pub fn write_cwasm(cwasm: &str, pid: u32) -> (r: CwasmFiles)
    ensures
        r.lock@ == cwasm_lock(cwasm@),
        r.temp@ == cwasm_temp(cwasm@, pid),
{
    let number: String = to_decimal(pid as u64);
    let ext: String = glue("tmp-", &number);
    CwasmFiles { lock: set_extension(cwasm, "lock"), temp: set_extension(cwasm, &ext) }
}

/// Two processes never write a precompiled module to the same temporary file, nor to the lock.
pub proof fn cwasm_temp_files_are_private(cwasm: Seq<char>, p: u32, q: u32)
    requires
        file_name(cwasm) is Some,
    ensures
        cwasm_temp(cwasm, p) == cwasm_temp(cwasm, q) ==> p == q,
        cwasm_temp(cwasm, p) != cwasm_lock(cwasm),
{
    reveal_strlit("tmp-");
    reveal_strlit("lock");
    let t = crate::path::trim_tail(cwasm);
    let bare = t.take(crate::path::name_start(t)) + crate::path::stem_of(file_name(cwasm)->0)
        + seq!['.'];
    let a = cwasm_temp(cwasm, p);
    let b = cwasm_temp(cwasm, q);
    assert("tmp-"@.len() == 4 && "lock"@.len() == 4);
    assert(a == bare + ("tmp-"@ + decimal(p as int)));
    assert(b == bare + ("tmp-"@ + decimal(q as int)));
    assert(cwasm_lock(cwasm) == bare + "lock"@);
    assert(a[bare.len() as int] == 't');
    assert(cwasm_lock(cwasm)[bare.len() as int] == 'l');
    if a == b {
        assert(a.skip((bare.len() + 4) as int) =~= decimal(p as int));
        assert(b.skip((bare.len() + 4) as int) =~= decimal(q as int));
        numeral_is_injective(p as nat, q as nat, 10);
    }
}

/// Every step has its cause: the answer that leads to it, and no other. So each failure says what
/// failed, what was written is loaded, and a module that cannot be loaded is compiled anew.
pub proof fn every_load_step_has_its_cause(step: LoadStep, answer: bool, forced: bool)
    ensures
        step.after(answer) != LoadStep::CheckStale,
        step.after(answer) == (LoadStep::Lock { forced: false }) <==> step is CheckStale && answer,
        step.after(answer) == (LoadStep::Lock { forced: true }) <==> step == (
        LoadStep::Deserialize { retried: false }) && !answer,
        step.after(answer) is Recheck <==> step == (LoadStep::Lock { forced: false }) && answer,
        step.after(answer) == (LoadStep::Read { forced }) <==> answer && step == (if forced {
            LoadStep::Lock { forced: true }
        } else {
            LoadStep::Recheck
        }),
        step.after(answer) == (LoadStep::Precompile { forced }) <==> step == (LoadStep::Read {
            forced,
        }) && answer,
        step.after(answer) == (LoadStep::WriteTemp { forced }) <==> step == (
        LoadStep::Precompile { forced }) && answer,
        step.after(answer) == (LoadStep::Publish { forced }) <==> step == (LoadStep::WriteTemp {
            forced,
        }) && answer,
        step.after(answer) is Discard <==> step is Publish && !answer,
        step.after(answer) == (LoadStep::Deserialize { retried: true }) <==> step == (
        LoadStep::Publish { forced: true }) && answer,
        step.after(answer) == (LoadStep::Deserialize { retried: false }) <==> {
            ||| step == (LoadStep::Publish { forced: false }) && answer
            ||| (step is CheckStale || step is Recheck) && !answer
        },
        step.after(answer) is ReadInProcess <==> step == (LoadStep::Deserialize { retried: true })
            && !answer,
        step.after(answer) is CompileInProcess <==> step is ReadInProcess && answer,
        step.after(answer) is Loaded <==> {
            ||| (step is Deserialize || step is CompileInProcess) && answer
            ||| step is Loaded
        },
        !(step is Failed) ==> (step.after(answer) matches LoadStep::Failed(f) ==> match f {
            LoadFailure::Lock => step is Lock && !answer,
            LoadFailure::Read => (step is Read || step is ReadInProcess) && !answer,
            LoadFailure::Compile => (step is Precompile || step is CompileInProcess) && !answer,
            LoadFailure::Write => step is WriteTemp && !answer,
            LoadFailure::Publish => step is Discard,
        }),
        step matches LoadStep::Failed(f) ==> step.after(answer) == LoadStep::Failed(f),
        step is Discard ==> step.after(answer) is Failed,
        (step is Lock || step is Read || step is Precompile || step is WriteTemp || step
            is ReadInProcess || step is CompileInProcess) && !answer ==> step.after(answer) is Failed,
{
}

/// The lock and the temporary files of a precompiled module stand beside it, under its stem.
pub proof fn cwasm_files_stand_beside_the_module(
    dir: Seq<char>,
    stem: Seq<char>,
    ext: Seq<char>,
    pid: u32,
)
    requires
        crate::path::is_dir_part(dir),
        stem.len() > 0,
        crate::text::without(stem, '/'),
        stem != seq!['.'] || ext.len() > 0,
        crate::text::without(ext, '/'),
        crate::text::without(ext, '.'),
    ensures
        cwasm_lock(dir + stem + seq!['.'] + ext) == dir + stem + ".lock"@,
        cwasm_temp(dir + stem + seq!['.'] + ext, pid) == dir + stem + ".tmp-"@ + decimal(
            pid as int,
        ),
{
    reveal_strlit("lock");
    reveal_strlit(".lock");
    reveal_strlit("tmp-");
    reveal_strlit(".tmp-");
    crate::path::extensions_stand_behind_the_last_dot(dir, stem, ext, "lock"@);
    crate::path::extensions_stand_behind_the_last_dot(
        dir,
        stem,
        ext,
        "tmp-"@ + decimal(pid as int),
    );
    assert(dir + stem + seq!['.'] + "lock"@ =~= dir + stem + ".lock"@);
    assert(dir + stem + seq!['.'] + ("tmp-"@ + decimal(pid as int)) =~= dir + stem + ".tmp-"@
        + decimal(pid as int));
}

} // verus!

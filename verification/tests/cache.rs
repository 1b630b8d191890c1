use zena_cli::artifact::artifact_paths;
use zena_cli::key::{cache_key, is_zena_file, KeyInputs, WalkEntry};
use zena_cli::loader::{write_cwasm, LoadFailure, LoadStep};
use zena_cli::session::{
    failure_message, report_captured_failure, report_failure, CompileFailure, CompileStep,
};
use zena_cli::stale::{
    cache_is_stale, check_cache, cwasm_is_stale, CacheCheck, FileStamp, Timestamp,
};

fn at(secs: i64, nanos: u32) -> Timestamp {
    Timestamp { secs, nanos }
}

fn stamp(secs: i64, len: u64) -> FileStamp {
    FileStamp { modified: Some(at(secs, 0)), len }
}

#[test]
fn test_cache_is_stale() {
    // The source and the compiler are written first.
    let src = Some(at(100, 0));
    let compiler = Some(at(100, 1_000_000));

    // Cached does not exist -> stale
    assert!(cache_is_stale(None, src, compiler, false));

    // Cached is 0 bytes -> stale
    let empty = FileStamp { modified: Some(at(100, 2_000_000)), len: 0 };
    assert!(cache_is_stale(Some(empty), src, compiler, false));

    // Cached has content and is newer, by twenty milliseconds -> fresh
    let cached = FileStamp { modified: Some(at(100, 22_000_000)), len: b"\0asm".len() as u64 };
    assert!(!cache_is_stale(Some(cached), src, compiler, false));

    // no_cache forces stale
    assert!(cache_is_stale(Some(cached), src, compiler, true));
}

#[test]
fn cache_checks_say_what_decided() {
    let now = Some(at(5, 0));
    assert_eq!(check_cache(None, now, now, true), CacheCheck::Forced);
    assert_eq!(check_cache(None, now, now, false), CacheCheck::Missing);
    assert_eq!(check_cache(Some(stamp(9, 0)), now, now, false), CacheCheck::Empty);
    let current = CacheCheck::Compared { stale: false };
    let stale = CacheCheck::Compared { stale: true };
    // Equal times are current.
    assert_eq!(check_cache(Some(stamp(5, 1)), now, now, false), current);
    assert_eq!(check_cache(Some(stamp(4, 1)), now, now, false), stale);
    assert_eq!(check_cache(Some(stamp(5, 1)), Some(at(5, 1)), now, false), stale);
    assert_eq!(check_cache(Some(stamp(5, 1)), now, Some(at(6, 0)), false), stale);
    assert_eq!(check_cache(Some(stamp(5, 1)), None, now, false), stale);
    assert_eq!(check_cache(Some(stamp(5, 1)), now, None, false), stale);
    let unknown = FileStamp { modified: None, len: 1 };
    assert_eq!(check_cache(Some(unknown), now, now, false), stale);
}

#[test]
fn a_later_source_or_compiler_stays_stale() {
    let cached = Some(stamp(5, 8));
    assert!(cache_is_stale(cached, Some(at(6, 0)), Some(at(1, 0)), false));
    assert!(cache_is_stale(cached, Some(at(7, 3)), Some(at(1, 0)), false));
    assert!(cache_is_stale(cached, Some(at(1, 0)), Some(at(6, 0)), false));
    assert!(cache_is_stale(cached, Some(at(1, 0)), Some(at(9, 0)), false));
}

#[test]
fn precompiled_modules_age() {
    assert!(cwasm_is_stale(false, Some(at(1, 0)), Some(at(2, 0))));
    assert!(!cwasm_is_stale(true, Some(at(1, 0)), Some(at(2, 0))));
    assert!(!cwasm_is_stale(true, Some(at(2, 0)), Some(at(2, 0))));
    assert!(cwasm_is_stale(true, Some(at(2, 1)), Some(at(2, 0))));
    assert!(cwasm_is_stale(true, None, Some(at(2, 0))));
    assert!(cwasm_is_stale(true, Some(at(2, 0)), None));
}

fn inputs() -> KeyInputs {
    KeyInputs {
        source: "/repo/a.zena".to_string(),
        test_mode: false,
        debug: false,
        target: None,
        wat: false,
        compiler: Some(stamp(7, 70)),
        backend: None,
        opt_level: None,
        wide_arithmetic: None,
        debug_names: None,
        manifest: None,
        stdlib: vec![
            WalkEntry { path: "/repo/std/list.zena".to_string(), stamp: Some(stamp(3, 30)) },
            WalkEntry { path: "/repo/std/README.md".to_string(), stamp: Some(stamp(4, 40)) },
        ],
        package: Vec::new(),
    }
}

#[test]
fn equal_inputs_have_equal_keys() {
    assert_eq!(cache_key(&inputs()), cache_key(&inputs()));
    // Files that are not Zena files do not count, and an unset variable is an empty one.
    let mut other = inputs();
    other.stdlib.pop();
    other.backend = Some(String::new());
    assert_eq!(cache_key(&inputs()), cache_key(&other));
}

#[test]
fn what_changes_the_output_changes_the_key() {
    let base = cache_key(&inputs());
    let mut keys = vec![base];
    let mut add = |change: fn(&mut KeyInputs)| {
        let mut changed = inputs();
        change(&mut changed);
        keys.push(cache_key(&changed));
    };
    add(|k| k.source = "/repo/b.zena".to_string());
    add(|k| k.test_mode = true);
    add(|k| k.debug = true);
    add(|k| k.target = Some("host".to_string()));
    add(|k| k.target = Some(String::new()));
    add(|k| k.wat = true);
    add(|k| k.compiler = Some(stamp(8, 70)));
    add(|k| k.compiler = Some(stamp(7, 71)));
    add(|k| k.compiler = None);
    add(|k| k.backend = Some("b".to_string()));
    add(|k| k.opt_level = Some("b".to_string()));
    add(|k| k.wide_arithmetic = Some("1".to_string()));
    add(|k| k.debug_names = Some("1".to_string()));
    add(|k| k.manifest = Some(stamp(1, 1)));
    add(|k| k.stdlib[0].stamp = Some(stamp(3, 31)));
    add(|k| k.stdlib[0].stamp = None);
    add(|k| k.stdlib[0].path = "/repo/std/map.zena".to_string());
    add(|k| {
        let entry = WalkEntry { path: "/repo/p/x.zena".to_string(), stamp: Some(stamp(2, 2)) };
        k.package.push(entry);
    });
    let count = keys.len();
    keys.sort();
    keys.dedup();
    assert_eq!(keys.len(), count);
}

#[test]
fn zena_files_are_told_by_their_extension() {
    assert!(is_zena_file("/a/b.zena"));
    assert!(is_zena_file("b.test.zena"));
    assert!(!is_zena_file(".zena"));
    assert!(!is_zena_file("/a/zena"));
    assert!(!is_zena_file("a.zena.bak"));
}

#[test]
fn artifacts_are_named_by_source_and_key() {
    let p = artifact_paths("/cache", "/repo/x/hello.zena", 0x1f, false, 42);
    assert_eq!(p.cached, "/cache/hello_1f.wasm");
    assert_eq!(p.temp, "/cache/hello_1f.tmp-42.wasm");
    assert_eq!(p.lock, "/cache/hello_1f.lock");
    let w = artifact_paths("/cache", "/", u64::MAX, true, 1);
    assert_eq!(w.cached, "/cache/_ffffffffffffffff.wat");
    assert_eq!(w.temp, "/cache/_ffffffffffffffff.tmp-1.wat");
    assert_eq!(w.lock, "/cache/_ffffffffffffffff.lock");
}

#[test]
fn artifact_names_do_not_clash() {
    let a = artifact_paths("/c", "/r/h.zena", 1, false, 42);
    let b = artifact_paths("/c", "/r/h.zena", 2, false, 42);
    let c = artifact_paths("/c", "/r/h.zena", 1, false, 43);
    assert_ne!(a.cached, b.cached);
    assert_ne!(a.temp, c.temp);
    assert_ne!(a.temp, a.cached);
}

#[test]
fn keys_part_artifacts_of_any_sources() {
    let paths = [
        artifact_paths("/c", "/r/h.zena", 0x1f, false, 1).cached,
        artifact_paths("/c", "/r/h.zena", 0x1f, true, 1).cached,
        artifact_paths("/c", "/r/h_1.zena", 0xf, false, 1).cached,
        artifact_paths("/c", "/r/h_1f.zena", 0x1f, false, 1).cached,
        artifact_paths("/c", "/", 0x1f, false, 1).cached,
    ];
    for (i, a) in paths.iter().enumerate() {
        for b in &paths[i + 1..] {
            assert_ne!(a, b);
        }
    }
    // Sources with one stem share an artifact only with one key.
    assert_eq!(artifact_paths("/c", "/other/h.zena", 0x1f, false, 1).cached, paths[0]);
}

#[test]
fn precompiled_modules_have_a_lock_and_a_temporary_file() {
    let f = write_cwasm("/c/x.debug.cwasm", 7);
    assert_eq!(f.lock, "/c/x.debug.lock");
    assert_eq!(f.temp, "/c/x.debug.tmp-7");
    assert_ne!(f.temp, write_cwasm("/c/x.debug.cwasm", 8).temp);
}

fn load(answers: &[bool]) -> LoadStep {
    let mut step = LoadStep::CheckStale;
    for a in answers {
        step = step.next(*a);
    }
    step
}

#[test]
fn a_current_module_is_loaded_as_it_is() {
    assert_eq!(load(&[]), LoadStep::CheckStale);
    assert_eq!(load(&[false]), LoadStep::Deserialize { retried: false });
    assert_eq!(load(&[false, true]), LoadStep::Loaded);
}

#[test]
fn a_stale_module_is_compiled_under_the_lock() {
    assert_eq!(load(&[true]), LoadStep::Lock { forced: false });
    assert_eq!(load(&[true, true]), LoadStep::Recheck);
    // Another process was faster.
    assert_eq!(load(&[true, true, false]), LoadStep::Deserialize { retried: false });
    assert_eq!(load(&[true, true, true, true, true]), LoadStep::WriteTemp { forced: false });
    let done = [true, true, true, true, true, true, true, true];
    assert_eq!(load(&done), LoadStep::Loaded);
}

#[test]
fn a_module_that_does_not_load_is_compiled_again_once() {
    assert_eq!(load(&[false, false]), LoadStep::Lock { forced: true });
    assert_eq!(load(&[false, false, true]), LoadStep::Read { forced: true });
    let again = [false, false, true, true, true, true, true];
    assert_eq!(load(&again), LoadStep::Deserialize { retried: true });
    let mut twice = again.to_vec();
    twice.push(false);
    assert_eq!(load(&twice), LoadStep::ReadInProcess);
    twice.push(true);
    assert_eq!(load(&twice), LoadStep::CompileInProcess);
    twice.push(true);
    assert_eq!(load(&twice), LoadStep::Loaded);
}

#[test]
fn each_failure_of_a_load_is_reached() {
    assert_eq!(load(&[true, false]), LoadStep::Failed(LoadFailure::Lock));
    assert_eq!(load(&[true, true, true, false]), LoadStep::Failed(LoadFailure::Read));
    assert_eq!(load(&[true, true, true, true, false]), LoadStep::Failed(LoadFailure::Compile));
    let unwritten = [true, true, true, true, true, false];
    assert_eq!(load(&unwritten), LoadStep::Failed(LoadFailure::Write));
    let unmoved = [true, true, true, true, true, true, false];
    assert_eq!(load(&unmoved), LoadStep::Discard);
    assert_eq!(load(&unmoved).next(true), LoadStep::Failed(LoadFailure::Publish));
    assert_eq!(load(&unmoved).next(false), LoadStep::Failed(LoadFailure::Publish));
}

#[test]
fn loads_end_whatever_the_answers() {
    for bits in 0..(1u32 << 16) {
        let mut step = LoadStep::CheckStale;
        for i in 0..16 {
            step = step.next(bits & (1 << i) != 0);
        }
        assert!(matches!(step, LoadStep::Loaded | LoadStep::Failed(_)));
    }
}

fn compile(answers: &[bool]) -> CompileStep {
    let mut step = CompileStep::CheckCache;
    for a in answers {
        step = step.next(*a);
    }
    step
}

#[test]
fn compiles_reuse_or_publish() {
    assert_eq!(compile(&[false]), CompileStep::Reused);
    assert_eq!(compile(&[true, true, false]), CompileStep::Reused);
    assert_eq!(compile(&[true, true, true]), CompileStep::Setup);
    assert_eq!(compile(&[true, true, true, true]), CompileStep::Run);
    assert_eq!(compile(&[true; 5]), CompileStep::CheckOutput);
    assert_eq!(compile(&[true; 7]), CompileStep::Published);
}

#[test]
fn each_failure_of_a_compile_is_reached() {
    assert_eq!(compile(&[true, false]), CompileStep::Failed(CompileFailure::Lock));
    assert_eq!(compile(&[true, true, true, false]), CompileStep::Failed(CompileFailure::Setup));
    assert_eq!(compile(&[true, true, true, true, false]), CompileStep::DiscardFailed);
    let failed = [true, true, true, true, false, true];
    assert_eq!(compile(&failed), CompileStep::Report(CompileFailure::Compiler));
    assert_eq!(compile(&failed).next(true), CompileStep::Failed(CompileFailure::Compiler));
    let silent = [true, true, true, true, true, false];
    assert_eq!(compile(&silent), CompileStep::Report(CompileFailure::NotEmitted));
    assert_eq!(compile(&silent).next(false), CompileStep::Failed(CompileFailure::NotEmitted));
    let unmoved = [true, true, true, true, true, true, false];
    assert_eq!(compile(&unmoved), CompileStep::DiscardUnpublished);
    let report = compile(&unmoved).next(true);
    assert_eq!(report, CompileStep::Report(CompileFailure::Publish));
    assert_eq!(report.next(true), CompileStep::Failed(CompileFailure::Publish));
}

#[test]
fn failures_of_a_compile_are_explained() {
    assert_eq!(
        failure_message(CompileFailure::Compiler, "/c/t.wasm").as_deref(),
        Some("Compilation failed")
    );
    assert_eq!(
        failure_message(CompileFailure::NotEmitted, "/c/t.wasm").as_deref(),
        Some("Compiler did not emit expected WebAssembly file to /c/t.wasm.")
    );
    assert_eq!(failure_message(CompileFailure::Lock, "/c/t.wasm"), None);
}

#[test]
fn a_failed_compiler_is_reported() {
    for replay in [false, true] {
        assert_eq!(
            report_failure(CompileFailure::Compiler, replay, "trap", None, None, None),
            "Compiler failed with error: trap\n"
        );
        let report = report_captured_failure(
            CompileFailure::Compiler,
            replay,
            "trap",
            Some("frame"),
            Some(b"bad \xff"),
            Some(b"out"),
        );
        assert_eq!(
            report,
            "Compiler failed with error: trap\nWasm Backtrace:\nframe\nCompiler Stderr:\nbad \
             \u{fffd}\nCompiler Stdout:\nout\n"
        );
    }
}

#[test]
fn runs_see_what_was_kept_back_on_any_failure() {
    let report = |failure, replay| {
        report_captured_failure(failure, replay, "", None, Some(b"warn"), Some(b"out \xff"))
    };
    for failure in [CompileFailure::NotEmitted, CompileFailure::Publish] {
        assert_eq!(
            report(failure, true),
            "Compiler Stderr:\nwarn\nCompiler Stdout:\nout \u{fffd}\n"
        );
        // Tests and tools did not ask for it.
        assert_eq!(report(failure, false), "");
        // What was not kept back was seen as it came.
        assert_eq!(report_captured_failure(failure, true, "", None, None, None), "");
    }
    for failure in [CompileFailure::Lock, CompileFailure::Setup] {
        assert_eq!(report(failure, true), "");
    }
}

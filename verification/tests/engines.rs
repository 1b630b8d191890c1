use zena_cli::engine::{
    apply_gc_config, bad_reserve_message, balloon_wat, base_config, base_engine, base_settings,
    compile_in_process, compile_outcome, cwasm_path_for, engine_outcome, effective_opt_level, precompile, reserve_gc_heap, EngineError, EngineSettings,
    GcCollector, MAX_GC_RESERVE_MB,
};
use zena_cli::trace::add_stack_trace_helpers;

#[test]
fn collectors_are_named() {
    assert_eq!(apply_gc_config(Some("null")), Some(GcCollector::Null));
    assert_eq!(apply_gc_config(Some("drc")), Some(GcCollector::DeferredReferenceCounting));
    assert_eq!(apply_gc_config(Some("copying")), Some(GcCollector::Copying));
    assert_eq!(apply_gc_config(Some("Null")), None);
    assert_eq!(apply_gc_config(Some("")), None);
    assert_eq!(apply_gc_config(None), None);
}

#[test]
fn settings_differ_in_inlining_alone() {
    let release = base_settings(false, false, None);
    let debug = base_settings(true, false, None);
    assert!(release.inlining);
    assert!(!debug.inlining);
    assert_eq!(EngineSettings { inlining: true, ..debug }, release);
    assert!(release.gc && release.tail_calls && release.exceptions && release.wide_arithmetic);
    assert!(release.function_references && release.backtrace_details);
    assert!(release.optimize_for_speed && !release.perf_map);
    assert!(base_settings(false, true, Some("drc")).perf_map);
    assert_eq!(base_settings(false, true, Some("drc")).collector, apply_gc_config(Some("drc")));
}

#[test]
fn flags_come_before_the_environment() {
    let flag = || Some("2".to_string());
    let env = || Some("s".to_string());
    assert_eq!(effective_opt_level(flag(), env()), flag());
    assert_eq!(effective_opt_level(None, env()), env());
    assert_eq!(effective_opt_level(None, None), None);
}

#[test]
fn every_feature_is_switched_on() {
    let engine = base_engine(false, false, None).unwrap();
    let modules = [
        // Garbage-collected types, and references to functions.
        "(module (type $s (struct (field i32))) (func (param (ref null $s))))",
        // Exceptions.
        "(module (tag $e) (func (throw $e)))",
        // Tail calls.
        "(module (func $f (return_call $f)))",
        // Wide arithmetic.
        "(module (func (param i64 i64) (result i64 i64)
           (i64.mul_wide_u (local.get 0) (local.get 1))))",
    ];
    for wat in modules {
        assert!(compile_in_process(&engine, wat.as_bytes()).is_ok(), "{wat}");
    }
}

#[test]
fn balloons_inflate_with_each_collector() {
    for name in [None, Some("null"), Some("drc"), Some("copying"), Some("other")] {
        // A small heap is enough here.
        let mut config = base_config(true, false, name);
        config.gc_heap_reservation(1 << 20);
        config.gc_heap_reservation_for_growth(1 << 20);
        config.gc_heap_guard_size(0);
        let engine = wasmtime::Engine::new(&config).unwrap();
        let module = compile_in_process(&engine, balloon_wat().as_bytes()).unwrap();
        let mut store = wasmtime::Store::new(&engine, ());
        let instance = wasmtime::Instance::new(&mut store, &module, &[]).unwrap();
        let balloon = instance.get_typed_func::<i32, ()>(&mut store, "balloon").unwrap();
        balloon.call(&mut store, 1024).unwrap();
    }
}

fn compatibility(engine: &wasmtime::Engine) -> u64 {
    let mut hasher = std::collections::hash_map::DefaultHasher::new();
    std::hash::Hash::hash(&engine.precompile_compatibility_hash(), &mut hasher);
    std::hash::Hasher::finish(&hasher)
}

#[test]
fn debug_and_release_modules_are_not_interchangeable() {
    let wat = "(module (func (export \"main\") (result i32) (i32.const 7)))";
    let release = base_engine(false, false, None).unwrap();
    let again = base_engine(false, false, None).unwrap();
    let debug = base_engine(true, false, None).unwrap();
    assert_eq!(compatibility(&release), compatibility(&again));
    assert_ne!(compatibility(&release), compatibility(&debug));
    let cwasm = precompile(&release, wat.as_bytes()).unwrap();
    assert_ne!(cwasm, wat.as_bytes());
    assert_ne!(cwasm, precompile(&debug, wat.as_bytes()).unwrap());
}

#[test]
fn broken_modules_are_refused() {
    let engine = base_engine(false, false, None).unwrap();
    assert!(matches!(precompile(&engine, b"(module"), Err(EngineError::Compile(_))));
    assert!(matches!(compile_in_process(&engine, b"\0asm"), Err(EngineError::Compile(_))));
}

#[test]
fn outcomes_keep_what_was_made() {
    assert!(matches!(compile_outcome(Ok(7)), Ok(7)));
    let failed: Result<u8, wasmtime::Error> = Err(wasmtime::Error::msg("why"));
    match compile_outcome(failed) {
        Err(EngineError::Compile(e)) => assert_eq!(e.to_string(), "why"),
        _ => panic!("an error was expected"),
    }
    match engine_outcome(Err(wasmtime::Error::msg("why"))) {
        Err(EngineError::Settings(e)) => assert_eq!(e.to_string(), "why"),
        _ => panic!("an error was expected"),
    }
    let engine = wasmtime::Engine::new(&base_config(false, false, None));
    assert!(engine_outcome(engine).is_ok());
}

#[test]
fn modules_belong_to_their_engine() {
    let wat = "(module (func (export \"main\") (result i32) (i32.const 7)))";
    let release = base_engine(false, false, None).unwrap();
    let debug = base_engine(true, false, None).unwrap();
    let module = compile_in_process(&debug, wat.as_bytes()).unwrap();
    assert!(wasmtime::Engine::same(module.engine(), &debug));
    assert!(!wasmtime::Engine::same(module.engine(), &release));
}

#[test]
fn configurations_make_engines() {
    assert!(wasmtime::Engine::new(&base_config(true, false, Some("copying"))).is_ok());
}

#[test]
fn modules_keep_their_imports() {
    let engine = base_engine(false, false, None).unwrap();
    let wat = "(module (import \"env\" \"captureStackTrace\" (func (result anyref))))";
    let module = compile_in_process(&engine, wat.as_bytes()).unwrap();
    let helpers = add_stack_trace_helpers(&module);
    assert_eq!(helpers[1].import, Some(0));
    assert_eq!(helpers[0].import, None);
}

#[test]
fn precompiled_modules_have_a_file_of_their_own() {
    assert_eq!(cwasm_path_for("/c/x_1f.wasm", false), "/c/x_1f.cwasm");
    assert_eq!(cwasm_path_for("/c/x_1f.wasm", true), "/c/x_1f.debug.cwasm");
    assert_eq!(cwasm_path_for("noext", false), "noext.cwasm");
}

#[test]
fn the_reserve_is_read_and_capped() {
    assert_eq!(reserve_gc_heap(None).unwrap(), None);
    assert_eq!(reserve_gc_heap(Some("0")).unwrap(), None);
    assert_eq!(reserve_gc_heap(Some(" 1\n")).unwrap(), Some(131072));
    assert_eq!(reserve_gc_heap(Some("1900")).unwrap(), Some(249036800));
    assert_eq!(reserve_gc_heap(Some("1901")).unwrap(), Some(249036800));
    assert_eq!(reserve_gc_heap(Some("18446744073709551615")).unwrap(), Some(249036800));
    assert_eq!(MAX_GC_RESERVE_MB * (1 << 20) / 8, 249036800);
    assert_eq!(reserve_gc_heap(Some("many")).unwrap_err().value, "many");
    assert_eq!(reserve_gc_heap(Some("")).unwrap_err().value, "");
    assert_eq!(reserve_gc_heap(Some("-1")).unwrap_err().value, "-1");
    for v in ["many", "", "1.5 GB", "a\"b\\c\n", "\u{e9}\u{200b}", "it's"] {
        assert_eq!(
            reserve_gc_heap(Some(v)).unwrap_err().message(),
            format!("ZENA_GC_RESERVE_MB must be an integer, got {:?}", v)
        );
    }
    assert_eq!(
        reserve_gc_heap(Some("many")).unwrap_err().message(),
        "ZENA_GC_RESERVE_MB must be an integer, got \"many\""
    );
    assert_eq!(
        bad_reserve_message("'x'"),
        "ZENA_GC_RESERVE_MB must be an integer, got 'x'"
    );
}

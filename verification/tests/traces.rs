use std::sync::Mutex;

use wasmtime::{
    Caller, Collector, Config, Engine, ExternRef, FuncType, Linker, Module, Rooted, Store, Val,
    ValType, WasmBacktrace,
};
use zena_cli::engine::{apply_gc_config, GcCollector};
use zena_cli::guest::WasmType;
use zena_cli::trace::{
    add_stack_trace_helpers, format_step, not_a_trace_message, trace_functions, transfer_trace,
    typing_import, FormatStep, ImportDecl, TraceArg, TraceTransfer,
};

struct MockString {
    data: Vec<u8>,
}

fn type_of(t: &WasmType) -> ValType {
    match t {
        WasmType::I32 => ValType::I32,
        WasmType::F64 => ValType::F64,
        WasmType::ExternRef => ValType::EXTERNREF,
    }
}

/// Registers the function that captures the stack.
fn add_capture(linker: &mut Linker<()>, ty: FuncType) {
    linker
        .func_new("env", "captureStackTrace", ty, |mut caller, _, results| {
            let bt = WasmBacktrace::capture(&caller);
            results[0] = Val::ExternRef(Some(ExternRef::new(&mut caller, bt)?));
            Ok(())
        })
        .unwrap();
}

/// Registers the function that formats a captured stack.
fn add_format(linker: &mut Linker<()>, ty: FuncType) {
    linker
        .func_new("env", "formatStackTrace", ty, |mut caller, params, results| {
            let (arg, held) = match &params[0] {
                Val::ExternRef(Some(r)) => (TraceArg::Extern, Some(r.clone())),
                Val::ExternRef(None) | Val::AnyRef(None) => (TraceArg::Null, None),
                other => (TraceArg::Other { shown: format!("{other:?}") }, None),
            };
            assert!(matches!(format_step(arg), FormatStep::Format));
            let text = match held.unwrap().data(&caller)?.and_then(|d| d.downcast_ref()) {
                Some(bt) => format!("{}", bt as &WasmBacktrace),
                None => return Err(wasmtime::Error::msg(not_a_trace_message())),
            };
            let create = caller.get_export("$stringCreate").and_then(|e| e.into_func());
            let set_byte = caller.get_export("$stringSetByte").and_then(|e| e.into_func());
            match transfer_trace(&text, create.is_some(), set_byte.is_some()) {
                TraceTransfer::Null => results[0] = Val::ExternRef(None),
                TraceTransfer::Fill { len, writes } => {
                    let mut made = vec![Val::I32(0)];
                    create.unwrap().call(&mut caller, &[Val::I32(len)], &mut made)?;
                    for (at, byte) in writes {
                        let args = [made[0].clone(), Val::I32(at), Val::I32(byte)];
                        set_byte.unwrap().call(&mut caller, &args, &mut [])?;
                    }
                    results[0] = made[0].clone();
                }
            }
            Ok(())
        })
        .unwrap();
}

#[test]
fn test_stack_trace_capture_and_format() {
    let mut config = Config::new();
    config.wasm_backtrace_details(wasmtime::WasmBacktraceDetails::Enable);
    config.wasm_gc(true);
    if let Some(collector) = apply_gc_config(None) {
        config.collector(match collector {
            GcCollector::Null => Collector::Null,
            GcCollector::DeferredReferenceCounting => Collector::DeferredReferenceCounting,
            GcCollector::Copying => Collector::Copying,
        });
    }
    // A small heap is enough here.
    config.gc_heap_reservation(1 << 20);
    config.gc_heap_reservation_for_growth(1 << 20);
    config.gc_heap_guard_size(0);
    let engine = Engine::new(&config).unwrap();

    let wat = r#"
        (module
            (import "env" "captureStackTrace" (func $capture (result externref)))
            (import "env" "formatStackTrace" (func $format (param externref) (result externref)))
            (import "env" "mockStringCreate" (func $create (param i32) (result externref)))
            (import "env" "mockStringSetByte" (func $set_byte (param externref i32 i32)))

            (func (export "$stringCreate") (param i32) (result externref)
                local.get 0
                call $create
            )

            (func (export "$stringSetByte") (param externref i32 i32)
                local.get 0
                local.get 1
                local.get 2
                call $set_byte
            )

            (func $test_stack_trace (export "test_stack_trace") (export "main") (result externref)
                call $capture
                call $format
            )
        )
    "#;

    let module = Module::new(&engine, wat).unwrap();
    let mut linker = Linker::<()>::new(&engine);

    // Register stack trace helpers
    for helper in add_stack_trace_helpers(&module) {
        let ty = match helper.import {
            Some(i) => module.imports().nth(i).unwrap().ty().unwrap_func().clone(),
            None => FuncType::new(
                &engine,
                helper.function.params.iter().map(type_of),
                helper.function.results.iter().map(type_of),
            ),
        };
        match helper.function.name.as_str() {
            "captureStackTrace" => add_capture(&mut linker, ty),
            "formatStackTrace" => add_format(&mut linker, ty),
            name => assert_eq!(name, "getStackTrace"),
        }
    }

    // Register string mocks
    linker
        .func_wrap("env", "mockStringCreate", |mut caller: Caller<'_, ()>, len: i32| {
            let mock = MockString { data: vec![0; len as usize] };
            let ext = ExternRef::new(&mut caller, Mutex::new(mock))?;
            Ok(Some(ext))
        })
        .unwrap();

    linker
        .func_wrap(
            "env",
            "mockStringSetByte",
            |caller: Caller<'_, ()>, ext_ref: Option<Rooted<ExternRef>>, index: i32, val: i32| {
                let ext = ext_ref.ok_or_else(|| {
                    wasmtime::Error::msg("mockStringSetByte: expected non-null ExternRef")
                })?;
                let cell = ext
                    .data(&caller)?
                    .ok_or_else(|| wasmtime::Error::msg("mockStringSetByte: missing data"))?
                    .downcast_ref::<Mutex<MockString>>()
                    .ok_or_else(|| {
                        wasmtime::Error::msg("mockStringSetByte: expected Mutex<MockString>")
                    })?;
                cell.lock().unwrap().data[index as usize] = val as u8;
                Ok(())
            },
        )
        .unwrap();

    // Instantiate
    let mut store = Store::new(&engine, ());
    let instance = linker.instantiate(&mut store, &module).unwrap();

    // Call "test_stack_trace"
    let func = instance
        .get_typed_func::<(), Option<Rooted<ExternRef>>>(&mut store, "test_stack_trace")
        .unwrap();
    let result_ref = func.call(&mut store, ()).unwrap();

    let ext = result_ref.expect("test_stack_trace returned null");
    let cell = ext
        .data(&store)
        .unwrap()
        .expect("expected string data in returned ExternRef")
        .downcast_ref::<Mutex<MockString>>()
        .expect("expected Mutex<MockString>");
    let bytes = &cell.lock().unwrap().data;
    let stack_trace = String::from_utf8(bytes.clone()).unwrap();

    println!("Captured stack trace:\n{}", stack_trace);

    // Verify the backtrace has frames pointing to Wasm execution
    assert!(stack_trace.contains("test_stack_trace"));
}

fn import(module: &str, name: &str, is_func: bool) -> ImportDecl {
    ImportDecl { module: module.to_string(), name: name.to_string(), is_func }
}

#[test]
fn the_first_import_of_a_name_gives_the_type() {
    let imports = vec![
        import("other", "getStackTrace", true),
        import("env", "formatStackTrace", false),
        import("env", "getStackTrace", true),
        import("env", "getStackTrace", true),
        import("env", "formatStackTrace", true),
    ];
    assert_eq!(typing_import(&imports, "getStackTrace"), Some(2));
    // The first of the name is no function, so the default type stays.
    assert_eq!(typing_import(&imports, "formatStackTrace"), None);
    assert_eq!(typing_import(&imports, "captureStackTrace"), None);
}

#[test]
fn imports_are_those_of_the_module() {
    let engine = Engine::default();
    let wat = r#"(module
        (import "env" "memory" (memory 1))
        (import "env" "formatStackTrace" (func (param externref) (result externref)))
        (import "env" "getStackTrace" (global i32)))"#;
    let module = Module::new(&engine, wat).unwrap();
    let helpers = add_stack_trace_helpers(&module);
    let got: Vec<(&str, Option<usize>)> =
        helpers.iter().map(|h| (h.function.name.as_str(), h.import)).collect();
    assert_eq!(
        got,
        vec![("getStackTrace", None), ("captureStackTrace", None), ("formatStackTrace", Some(1))]
    );
}

#[test]
fn default_types_take_and_give_references() {
    let functions = trace_functions();
    assert_eq!(functions.len(), 3);
    assert!(functions[0].params.is_empty() && functions[1].params.is_empty());
    assert_eq!(functions[2].params, vec![WasmType::ExternRef]);
    for f in functions {
        assert_eq!(f.results, vec![WasmType::ExternRef]);
    }
}

#[test]
fn traces_are_handed_over_byte_by_byte() {
    assert!(matches!(transfer_trace("", true, true), TraceTransfer::Null));
    assert!(matches!(transfer_trace("x", false, true), TraceTransfer::Null));
    assert!(matches!(transfer_trace("x", true, false), TraceTransfer::Null));
    let text = "a\u{e9}\u{4e2d}";
    match transfer_trace(text, true, true) {
        TraceTransfer::Fill { len, writes } => {
            assert_eq!(len, 6);
            let mut string = vec![0xaau8; 6];
            for (at, byte) in writes {
                string[at as usize] = byte as u8;
            }
            assert_eq!(string, text.as_bytes());
        }
        TraceTransfer::Null => panic!("a trace was expected"),
    }
}

#[test]
fn what_is_formatted_is_told_apart() {
    assert!(matches!(format_step(TraceArg::Extern), FormatStep::Format));
    assert!(matches!(format_step(TraceArg::Any), FormatStep::ConvertThenFormat));
    assert!(matches!(format_step(TraceArg::Null), FormatStep::HandBackNull));
    match format_step(TraceArg::Other { shown: "I32(1)".to_string() }) {
        FormatStep::Stop(message) => assert_eq!(
            message,
            "formatStackTrace: Expected ExternRef or AnyRef, got I32(1)"
        ),
        _ => panic!("a message was expected"),
    }
    assert_eq!(
        not_a_trace_message(),
        "formatStackTrace: Failed to downcast ExternRef data to WasmBacktrace"
    );
}

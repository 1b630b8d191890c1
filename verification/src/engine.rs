//! The engine that runs and compiles wasm: its settings, and how much garbage-collected heap it
//! reserves.
use vstd::prelude::*;

use wasmtime::{Config, Engine, Module};

use crate::number::{parse_u64, parse_unsigned};
use crate::path::{set_extension, with_extension};
use crate::text::{glue, opt_str, same_text, trim, trimmed};

verus! {

// ---------------------------------------------------------------------------------------------
// Settings
// ---------------------------------------------------------------------------------------------
/// A garbage collector that the engine can be asked to use.
#[derive(Clone, Copy, Debug, PartialEq, Eq, Structural)]
pub enum GcCollector {
    Null,
    DeferredReferenceCounting,
    Copying,
}

/// The settings that every engine of this tool shares.
#[derive(Clone, Copy, Debug, PartialEq, Eq, Structural)]
pub struct EngineSettings {
    pub optimize_for_speed: bool,
    pub inlining: bool,
    pub gc: bool,
    pub function_references: bool,
    pub exceptions: bool,
    pub tail_calls: bool,
    pub wide_arithmetic: bool,
    pub backtrace_details: bool,
    /// Write a perf map. Otherwise no native unwind information is made.
    pub perf_map: bool,
    /// The collector asked for, if any.
    pub collector: Option<GcCollector>,
}

/// The collector that the environment names.
pub open spec fn collector_named(name: Option<Seq<char>>) -> Option<GcCollector> {
    if name == Some("null"@) {
        Some(GcCollector::Null)
    } else if name == Some("drc"@) {
        Some(GcCollector::DeferredReferenceCounting)
    } else if name == Some("copying"@) {
        Some(GcCollector::Copying)
    } else {
        None
    }
}

/// The settings of an engine. Debugging switches inlining off and changes nothing else.
pub open spec fn settings_for(
    debug: bool,
    profile: bool,
    collector: Option<Seq<char>>,
) -> EngineSettings {
    EngineSettings {
        optimize_for_speed: true,
        inlining: !debug,
        gc: true,
        function_references: true,
        exceptions: true,
        tail_calls: true,
        wide_arithmetic: true,
        backtrace_details: true,
        perf_map: profile,
        collector: collector_named(collector),
    }
}

/// Selects the collector from the environment's word for it (null, drc or copying). Any other
/// word leaves the choice to the engine.
pub fn apply_gc_config(name: Option<&str>) -> (r: Option<GcCollector>)
    ensures
        r == collector_named(opt_str(name)),
{
    proof {
        reveal_strlit("null");
        reveal_strlit("drc");
        reveal_strlit("copying");
        assert("null"@.len() == 4 && "drc"@.len() == 3 && "copying"@.len() == 7);
    }
    match name {
        Some(n) => {
            if same_text(n, "null") {
                Some(GcCollector::Null)
            } else if same_text(n, "drc") {
                Some(GcCollector::DeferredReferenceCounting)
            } else if same_text(n, "copying") {
                Some(GcCollector::Copying)
            } else {
                None
            }
        },
        None => None,
    }
}

/// The settings shared by every engine. Engines that touch the same precompiled modules must
/// agree on them.
pub fn base_settings(debug: bool, profile: bool, collector: Option<&str>) -> (r: EngineSettings)
    ensures
        r == settings_for(debug, profile, opt_str(collector)),
{
    EngineSettings {
        optimize_for_speed: true,
        inlining: !debug,
        gc: true,
        function_references: true,
        exceptions: true,
        tail_calls: true,
        wide_arithmetic: true,
        backtrace_details: true,
        perf_map: profile,
        collector: apply_gc_config(collector),
    }
}

/// The optimization level: the flag, or else the environment's.
pub fn effective_opt_level(flag: Option<String>, env: Option<String>) -> (r: Option<String>)
    ensures
        r == (match flag {
            Some(f) => Some(f),
            None => env,
        }),
{
    match flag {
        Some(f) => Some(f),
        None => env,
    }
}

// ---------------------------------------------------------------------------------------------
// Engines
// ---------------------------------------------------------------------------------------------
#[verifier::external_type_specification]
#[verifier::external_body]
pub struct ExConfig(wasmtime::Config);

#[verifier::external_type_specification]
#[verifier::external_body]
pub struct ExEngine(wasmtime::Engine);

#[verifier::external_type_specification]
#[verifier::external_body]
pub struct ExModule(wasmtime::Module);

#[verifier::external_type_specification]
#[verifier::external_body]
pub struct ExWasmtimeError(wasmtime::Error);

/// An option of a configuration.
pub enum EngineOption {
    Compiler,
    OptimizeForSpeed,
    Inlining,
    Gc,
    FunctionReferences,
    Exceptions,
    TailCalls,
    WideArithmetic,
    BacktraceDetails,
    PerfMap,
    NativeUnwindInfo,
    Collector,
}

/// What an option is set to.
pub enum OptionValue {
    Flag(bool),
    Collector(GcCollector),
}

/// The options that have been set on a configuration.
pub uninterp spec fn config_options(config: Config) -> Map<EngineOption, OptionValue>;

/// The options of the configuration that an engine was made with.
pub uninterp spec fn engine_options(engine: Engine) -> Map<EngineOption, OptionValue>;

/// The options of a new configuration: it has a compiler, and nothing else is set.
pub open spec fn fresh_options() -> Map<EngineOption, OptionValue> {
    Map::<EngineOption, OptionValue>::empty().insert(
        EngineOption::Compiler,
        OptionValue::Flag(true),
    )
}

impl EngineSettings {
    /// The options that these settings set.
    pub open spec fn options(self) -> Map<EngineOption, OptionValue> {
        let features = fresh_options().insert(
            EngineOption::OptimizeForSpeed,
            OptionValue::Flag(self.optimize_for_speed),
        ).insert(EngineOption::Inlining, OptionValue::Flag(self.inlining)).insert(
            EngineOption::Gc,
            OptionValue::Flag(self.gc),
        ).insert(
            EngineOption::FunctionReferences,
            OptionValue::Flag(self.function_references),
        ).insert(EngineOption::Exceptions, OptionValue::Flag(self.exceptions)).insert(
            EngineOption::TailCalls,
            OptionValue::Flag(self.tail_calls),
        ).insert(EngineOption::WideArithmetic, OptionValue::Flag(self.wide_arithmetic)).insert(
            EngineOption::BacktraceDetails,
            OptionValue::Flag(self.backtrace_details),
        );
        let profiled = if self.perf_map {
            features.insert(EngineOption::PerfMap, OptionValue::Flag(true))
        } else {
            features.insert(EngineOption::NativeUnwindInfo, OptionValue::Flag(false))
        };
        match self.collector {
            Some(c) => profiled.insert(EngineOption::Collector, OptionValue::Collector(c)),
            None => profiled,
        }
    }
}

/// `wasmtime::Config::new`: a configuration with a compiler and no other option set.
#[verifier::external_body]
fn new_config() -> (r: Config)
    ensures
        config_options(r) == fresh_options(),
{
    Config::new()
}

/// `wasmtime::Config::cranelift_opt_level`, with the level for speed or none. It panics on a
/// configuration without a compiler.
#[verifier::external_body]
fn set_opt_level(config: &mut Config, speed: bool)
    requires
        config_options(*old(config)).contains_key(EngineOption::Compiler),
    ensures
        config_options(*final(config)) == config_options(*old(config)).insert(
            EngineOption::OptimizeForSpeed,
            OptionValue::Flag(speed),
        ),
{
    config.cranelift_opt_level(match speed {
        true => wasmtime::OptLevel::Speed,
        false => wasmtime::OptLevel::None,
    });
}

/// `wasmtime::Config::compiler_inlining`, all of it or none.
#[verifier::external_body]
fn set_inlining(config: &mut Config, on: bool)
    ensures
        config_options(*final(config)) == config_options(*old(config)).insert(
            EngineOption::Inlining,
            OptionValue::Flag(on),
        ),
{
    config.compiler_inlining(match on {
        true => wasmtime::Inlining::Yes,
        false => wasmtime::Inlining::No,
    });
}

/// `wasmtime::Config::wasm_gc`.
#[verifier::external_body]
fn set_gc(config: &mut Config, on: bool)
    ensures
        config_options(*final(config)) == config_options(*old(config)).insert(
            EngineOption::Gc,
            OptionValue::Flag(on),
        ),
{
    config.wasm_gc(on);
}

/// `wasmtime::Config::wasm_function_references`.
#[verifier::external_body]
fn set_function_references(config: &mut Config, on: bool)
    ensures
        config_options(*final(config)) == config_options(*old(config)).insert(
            EngineOption::FunctionReferences,
            OptionValue::Flag(on),
        ),
{
    config.wasm_function_references(on);
}

/// `wasmtime::Config::wasm_exceptions`.
#[verifier::external_body]
fn set_exceptions(config: &mut Config, on: bool)
    ensures
        config_options(*final(config)) == config_options(*old(config)).insert(
            EngineOption::Exceptions,
            OptionValue::Flag(on),
        ),
{
    config.wasm_exceptions(on);
}

/// `wasmtime::Config::wasm_tail_call`.
#[verifier::external_body]
fn set_tail_call(config: &mut Config, on: bool)
    ensures
        config_options(*final(config)) == config_options(*old(config)).insert(
            EngineOption::TailCalls,
            OptionValue::Flag(on),
        ),
{
    config.wasm_tail_call(on);
}

/// `wasmtime::Config::wasm_wide_arithmetic`.
#[verifier::external_body]
fn set_wide_arithmetic(config: &mut Config, on: bool)
    ensures
        config_options(*final(config)) == config_options(*old(config)).insert(
            EngineOption::WideArithmetic,
            OptionValue::Flag(on),
        ),
{
    config.wasm_wide_arithmetic(on);
}

/// `wasmtime::Config::wasm_backtrace_details`, on or off whatever the environment says.
#[verifier::external_body]
fn set_backtrace_details(config: &mut Config, on: bool)
    ensures
        config_options(*final(config)) == config_options(*old(config)).insert(
            EngineOption::BacktraceDetails,
            OptionValue::Flag(on),
        ),
{
    config.wasm_backtrace_details(match on {
        true => wasmtime::WasmBacktraceDetails::Enable,
        false => wasmtime::WasmBacktraceDetails::Disable,
    });
}

/// `wasmtime::Config::profiler`, with the perf map strategy.
#[verifier::external_body]
fn set_perf_map(config: &mut Config)
    ensures
        config_options(*final(config)) == config_options(*old(config)).insert(
            EngineOption::PerfMap,
            OptionValue::Flag(true),
        ),
{
    config.profiler(wasmtime::ProfilingStrategy::PerfMap);
}

/// `wasmtime::Config::native_unwind_info`.
#[verifier::external_body]
fn set_native_unwind_info(config: &mut Config, on: bool)
    ensures
        config_options(*final(config)) == config_options(*old(config)).insert(
            EngineOption::NativeUnwindInfo,
            OptionValue::Flag(on),
        ),
{
    config.native_unwind_info(on);
}

/// `wasmtime::Config::collector`.
#[verifier::external_body]
fn set_collector(config: &mut Config, collector: GcCollector)
    ensures
        config_options(*final(config)) == config_options(*old(config)).insert(
            EngineOption::Collector,
            OptionValue::Collector(collector),
        ),
{
    config.collector(match collector {
        GcCollector::Null => wasmtime::Collector::Null,
        GcCollector::DeferredReferenceCounting => wasmtime::Collector::DeferredReferenceCounting,
        GcCollector::Copying => wasmtime::Collector::Copying,
    });
}

/// `wasmtime::Engine::new`: an engine keeps the configuration that it was made with. Whether one
/// can be made also rests on the machine, so success is not promised.
#[verifier::external_body]
fn new_engine(config: &Config) -> (r: Result<Engine, wasmtime::Error>)
    ensures
        r matches Ok(e) ==> engine_options(e) == config_options(*config),
{
    Engine::new(config)
}

/// The imports that a wasm module, in binary or text form, declares: the module and the name of
/// each, and whether it is a function.
pub uninterp spec fn declared_imports(wasm: Seq<u8>) -> Seq<(Seq<char>, Seq<char>, bool)>;

/// The imports of a module, in the order in which it declares them.
pub uninterp spec fn module_imports(module: Module) -> Seq<(Seq<char>, Seq<char>, bool)>;

/// The options of the engine that a module belongs to.
pub uninterp spec fn module_options(module: Module) -> Map<EngineOption, OptionValue>;

/// The module was compiled from this wasm.
pub uninterp spec fn compiled_from(module: Module, wasm: Seq<u8>) -> bool;

/// These bytes are what an engine with these options precompiles this wasm to, on some machine.
pub uninterp spec fn compiled_under(
    cwasm: Seq<u8>,
    wasm: Seq<u8>,
    options: Map<EngineOption, OptionValue>,
) -> bool;

/// `wasmtime::Engine::precompile_module`: the bytes are this engine's compilation of this wasm;
/// they record the engine's settings, and an engine with others refuses them. Beyond that they
/// are code for one kind of machine, and whether there are any rests on the machine too, so
/// nothing more is said.
#[verifier::external_body]
fn precompile_module(engine: &Engine, wasm: &[u8]) -> (r: Result<Vec<u8>, wasmtime::Error>)
    ensures
        r matches Ok(cwasm) ==> compiled_under(cwasm@, wasm@, engine_options(*engine)),
{
    engine.precompile_module(wasm)
}

/// `wasmtime::Module::new`: a module is compiled from this wasm, belongs to this engine, and has
/// the imports that the wasm declares. Its code is that of one kind of machine, and whether there
/// is any rests on the machine too, so of both nothing is said.
#[verifier::external_body]
fn new_module(engine: &Engine, wasm: &[u8]) -> (r: Result<Module, wasmtime::Error>)
    ensures
        r matches Ok(module) ==> compiled_from(module, wasm@) && module_options(module)
            == engine_options(*engine) && module_imports(module) == declared_imports(wasm@),
{
    Module::new(engine, wasm)
}

/// Why an engine could not do its work.
#[derive(Debug)]
pub enum EngineError {
    /// No engine can be made with these settings here.
    Settings(wasmtime::Error),
    /// The module could not be compiled.
    Compile(wasmtime::Error),
}

/// The configuration with the settings for `debug`, profiling and the collector's name.
pub fn base_config(debug: bool, profile: bool, collector: Option<&str>) -> (r: Config)
    ensures
        config_options(r) == settings_for(debug, profile, opt_str(collector)).options(),
{
    let settings: EngineSettings = base_settings(debug, profile, collector);
    let mut config: Config = new_config();
    set_opt_level(&mut config, settings.optimize_for_speed);
    set_inlining(&mut config, settings.inlining);
    set_gc(&mut config, settings.gc);
    set_function_references(&mut config, settings.function_references);
    set_exceptions(&mut config, settings.exceptions);
    set_tail_call(&mut config, settings.tail_calls);
    set_wide_arithmetic(&mut config, settings.wide_arithmetic);
    set_backtrace_details(&mut config, settings.backtrace_details);
    if settings.perf_map {
        set_perf_map(&mut config);
    } else {
        set_native_unwind_info(&mut config, false);
    }
    match settings.collector {
        Some(c) => set_collector(&mut config, c),
        None => {},
    }
    config
}

/// What becomes of an attempt to make an engine.
pub fn engine_outcome(attempt: Result<Engine, wasmtime::Error>) -> (r: Result<Engine, EngineError>)
    ensures
        r == (match attempt {
            Ok(engine) => Ok(engine),
            Err(e) => Err(EngineError::Settings(e)),
        }),
{
    match attempt {
        Ok(engine) => Ok(engine),
        Err(e) => Err(EngineError::Settings(e)),
    }
}

/// What becomes of an attempt to compile a module.
pub fn compile_outcome<T>(attempt: Result<T, wasmtime::Error>) -> (r: Result<T, EngineError>)
    ensures
        r == (match attempt {
            Ok(made) => Ok(made),
            Err(e) => Err(EngineError::Compile(e)),
        }),
{
    match attempt {
        Ok(made) => Ok(made),
        Err(e) => Err(EngineError::Compile(e)),
    }
}

/// An engine with the settings for `debug`, profiling and the collector's name.
pub fn base_engine(debug: bool, profile: bool, collector: Option<&str>) -> (r: Result<
    Engine,
    EngineError,
>)
    ensures
        match r {
            Ok(e) => engine_options(e) == settings_for(
                debug,
                profile,
                opt_str(collector),
            ).options(),
            Err(e) => e is Settings,
        },
{
    let config: Config = base_config(debug, profile, collector);
    engine_outcome(new_engine(&config))
}

/// Engines that differ in nothing but debugging agree in every option but inlining.
pub proof fn debugging_changes_inlining_alone(profile: bool, collector: Option<Seq<char>>)
    ensures
        settings_for(true, profile, collector).options() == settings_for(
            false,
            profile,
            collector,
        ).options().insert(EngineOption::Inlining, OptionValue::Flag(false)),
        settings_for(false, profile, collector).options()[EngineOption::Inlining]
            == OptionValue::Flag(true),
{
    let release = settings_for(false, profile, collector);
    let debug = settings_for(true, profile, collector);
    assert(debug.options() =~= release.options().insert(
        EngineOption::Inlining,
        OptionValue::Flag(false),
    ));
}

/// What one engine precompiles is a compilation under the options of every engine that was made
/// for the same debugging, profiling and collector.
pub proof fn equal_engines_share_modules(
    one: Engine,
    other: Engine,
    debug: bool,
    profile: bool,
    collector: Option<Seq<char>>,
    wasm: Seq<u8>,
    cwasm: Seq<u8>,
)
    requires
        engine_options(one) == settings_for(debug, profile, collector).options(),
        engine_options(other) == settings_for(debug, profile, collector).options(),
        compiled_under(cwasm, wasm, engine_options(one)),
    ensures
        compiled_under(cwasm, wasm, engine_options(other)),
{
}

/// Compiles a wasm module ahead of time, under this engine's options.
pub fn precompile(engine: &Engine, wasm: &[u8]) -> (r: Result<Vec<u8>, EngineError>)
    ensures
        match r {
            Ok(cwasm) => compiled_under(cwasm@, wasm@, engine_options(*engine)),
            Err(e) => e is Compile,
        },
{
    compile_outcome(precompile_module(engine, wasm))
}

/// Compiles a wasm module in this process, for this engine.
pub fn compile_in_process(engine: &Engine, wasm: &[u8]) -> (r: Result<Module, EngineError>)
    ensures
        match r {
            Ok(module) => {
                &&& compiled_from(module, wasm@)
                &&& module_options(module) == engine_options(*engine)
                &&& module_imports(module) == declared_imports(wasm@)
            },
            Err(e) => e is Compile,
        },
{
    compile_outcome(new_module(engine, wasm))
}

// ---------------------------------------------------------------------------------------------
// Precompiled modules
// ---------------------------------------------------------------------------------------------
/// Where the precompiled form of a wasm file is kept.
pub open spec fn cwasm_path(wasm_path: Seq<char>, debug: bool) -> Seq<char> {
    if debug {
        with_extension(wasm_path, "debug.cwasm"@)
    } else {
        with_extension(wasm_path, "cwasm"@)
    }
}

/// The cwasm cache path for a wasm file under the given variant of the settings. Debug engines
/// cannot reuse release modules, nor the other way round, so each variant has its own file.
pub fn cwasm_path_for(wasm_path: &str, debug: bool) -> (r: String)
    ensures
        r@ == cwasm_path(wasm_path@, debug),
{
    if debug {
        set_extension(wasm_path, "debug.cwasm")
    } else {
        set_extension(wasm_path, "cwasm")
    }
}

/// The two variants of a file never share a precompiled module.
pub proof fn variants_have_their_own_files(wasm_path: Seq<char>)
    requires
        crate::path::file_name(wasm_path) is Some,
    ensures
        cwasm_path(wasm_path, true) != cwasm_path(wasm_path, false),
{
    reveal_strlit("debug.cwasm");
    reveal_strlit("cwasm");
    assert("debug.cwasm"@.len() == 11 && "cwasm"@.len() == 5);
    assert(cwasm_path(wasm_path, true).len() != cwasm_path(wasm_path, false).len());
}

// ---------------------------------------------------------------------------------------------
// The heap reserve
// ---------------------------------------------------------------------------------------------
/// How many MiB of heap headroom to reserve where the environment does not say.
pub const DEFAULT_GC_RESERVE_MB: u64 = 0;

/// The most that is reserved. The heap is split into two halves of at most 2 GiB, and the
/// reserve must fit in one of them.
pub const MAX_GC_RESERVE_MB: u64 = 1900;

/// The value given for the reserve is not a number.
#[derive(Debug)]
pub struct BadReserve {
    pub value: String,
}

/// A text in quotes, with escapes for what could not be read in it.
pub uninterp spec fn quoted_text(s: Seq<char>) -> Seq<char>;

/// The character stands for itself in quotes: it is ASCII, can be seen, and is neither a quote nor
/// a backslash.
pub open spec fn is_plain(c: char) -> bool {
    ' ' <= c && c <= '~' && c != '"' && c != '\'' && c != '\\'
}

/// The `Debug` form of `str`: a function of the text alone, and the text in quotes where nothing
/// in it needs an escape. How other characters are escaped is left unsaid.
#[verifier::external_body]
fn quote(s: &str) -> (r: String)
    ensures
        r@ == quoted_text(s@),
        (forall|i: int| 0 <= i < s@.len() ==> is_plain(#[trigger] s@[i])) ==> r@ == seq!['"'] + s@
            + seq!['"'],
{
    format!("{:?}", s)
}

/// What to say of a value that is not a number, given in quotes.
pub fn bad_reserve_message(quoted: &str) -> (r: String)
    ensures
        r@ == "ZENA_GC_RESERVE_MB must be an integer, got "@ + quoted@,
{
    glue("ZENA_GC_RESERVE_MB must be an integer, got ", quoted)
}

impl BadReserve {
    /// What to say of the value.
    pub fn message(&self) -> (r: String)
        ensures
            r@ == "ZENA_GC_RESERVE_MB must be an integer, got "@ + quoted_text(self.value@),
            (forall|i: int| 0 <= i < self.value@.len() ==> is_plain(#[trigger] self.value@[i]))
                ==> r@ == "ZENA_GC_RESERVE_MB must be an integer, got "@ + (seq!['"']
                + self.value@ + seq!['"']),
    {
        let quoted: String = quote(&self.value);
        bad_reserve_message(&quoted)
    }
}

/// The MiB asked for, if the value is a number.
pub open spec fn reserve_asked(value: Option<Seq<char>>) -> Option<nat> {
    match value {
        Some(v) => parse_unsigned(trimmed(v), u64::MAX as nat),
        None => Some(DEFAULT_GC_RESERVE_MB as nat),
    }
}

/// The length in 64-bit elements of the array that makes the heap grow by `mb` MiB.
pub open spec fn balloon_len(mb: nat) -> int {
    let capped = if mb <= MAX_GC_RESERVE_MB {
        mb as int
    } else {
        MAX_GC_RESERVE_MB as int
    };
    capped * 0x10_0000 / 8
}

/// How long an array to allocate, and drop, so that the heap has its headroom from the start;
/// none where nothing is to be reserved.
pub fn reserve_gc_heap(value: Option<&str>) -> (r: Result<Option<i32>, BadReserve>)
    ensures
        match reserve_asked(opt_str(value)) {
            Some(mb) => r == Ok::<Option<i32>, BadReserve>(
                if mb == 0 {
                    None
                } else {
                    Some(balloon_len(mb) as i32)
                },
            ),
            None => r matches Err(e) && value is Some && e.value@ == value->0@,
        },
{
    let asked: u64 = match value {
        Some(v) => {
            let t: String = trim(v);
            match parse_u64(&t) {
                Some(n) => n,
                None => {
                    return Err(BadReserve { value: v.to_owned() });
                },
            }
        },
        None => DEFAULT_GC_RESERVE_MB,
    };
    let mb: u64 = if asked <= MAX_GC_RESERVE_MB {
        asked
    } else {
        MAX_GC_RESERVE_MB
    };
    if mb == 0 {
        return Ok(None);
    }
    let len: u64 = mb * 0x10_0000 / 8;
    Ok(Some(len as i32))
}

/// The reserve grows with what is asked, never past its cap, and its length fits an `i32`.
pub proof fn reserve_is_capped(a: nat, b: nat)
    requires
        a <= b,
    ensures
        0 <= balloon_len(a) <= balloon_len(b) <= i32::MAX,
        balloon_len(b) * 8 <= MAX_GC_RESERVE_MB * 0x10_0000,
        b <= MAX_GC_RESERVE_MB ==> balloon_len(b) * 8 == b * 0x10_0000,
{
}

/// The module whose export `balloon` allocates and drops an array of the given length.
pub fn balloon_wat() -> (r: &'static str)
    ensures
        r@ == "(module (type $balloon (array (mut i64))) (func (export \"balloon\") (param $len i32) (drop (array.new_default $balloon (local.get $len)))))"@,
{
    "(module (type $balloon (array (mut i64))) (func (export \"balloon\") (param $len i32) (drop (array.new_default $balloon (local.get $len)))))"
}

/// Every engine optimizes for speed, accepts all that Zena programs use, and keeps the details of
/// backtraces. It inlines unless for debugging; it writes a perf map where profiling is asked for,
/// and otherwise makes no native unwind information; and it has the collector that the environment
/// names, where it names one of the three.
pub proof fn engines_accept_every_feature(debug: bool, profile: bool, collector: Option<Seq<char>>)
    ensures
        ({
            let o = settings_for(debug, profile, collector).options();
            &&& o.contains_pair(EngineOption::OptimizeForSpeed, OptionValue::Flag(true))
            &&& o.contains_pair(EngineOption::Gc, OptionValue::Flag(true))
            &&& o.contains_pair(EngineOption::FunctionReferences, OptionValue::Flag(true))
            &&& o.contains_pair(EngineOption::Exceptions, OptionValue::Flag(true))
            &&& o.contains_pair(EngineOption::TailCalls, OptionValue::Flag(true))
            &&& o.contains_pair(EngineOption::WideArithmetic, OptionValue::Flag(true))
            &&& o.contains_pair(EngineOption::BacktraceDetails, OptionValue::Flag(true))
            &&& o.contains_pair(EngineOption::Inlining, OptionValue::Flag(!debug))
            &&& profile ==> o.contains_pair(EngineOption::PerfMap, OptionValue::Flag(true))
                && !o.contains_key(EngineOption::NativeUnwindInfo)
            &&& !profile ==> o.contains_pair(
                EngineOption::NativeUnwindInfo,
                OptionValue::Flag(false),
            ) && !o.contains_key(EngineOption::PerfMap)
            &&& o.contains_pair(
                EngineOption::Collector,
                OptionValue::Collector(GcCollector::Null),
            ) <==> collector == Some("null"@)
            &&& o.contains_pair(
                EngineOption::Collector,
                OptionValue::Collector(GcCollector::DeferredReferenceCounting),
            ) <==> collector == Some("drc"@)
            &&& o.contains_pair(
                EngineOption::Collector,
                OptionValue::Collector(GcCollector::Copying),
            ) <==> collector == Some("copying"@)
            &&& o.contains_key(EngineOption::Collector) <==> collector == Some("null"@) || collector
                == Some("drc"@) || collector == Some("copying"@)
        }),
{
    reveal_strlit("null");
    reveal_strlit("drc");
    reveal_strlit("copying");
    assert("null"@.len() == 4 && "drc"@.len() == 3 && "copying"@.len() == 7);
}

/// The precompiled form of a wasm file stands beside it, under its stem, and that for debugging
/// under a name of its own.
pub proof fn precompiled_files_stand_beside_the_wasm(
    dir: Seq<char>,
    stem: Seq<char>,
    ext: Seq<char>,
)
    requires
        crate::path::is_dir_part(dir),
        stem.len() > 0,
        crate::text::without(stem, '/'),
        stem != seq!['.'] || ext.len() > 0,
        crate::text::without(ext, '/'),
        crate::text::without(ext, '.'),
    ensures
        cwasm_path(dir + stem + seq!['.'] + ext, false) == dir + stem + ".cwasm"@,
        cwasm_path(dir + stem + seq!['.'] + ext, true) == dir + stem + ".debug.cwasm"@,
{
    reveal_strlit("cwasm");
    reveal_strlit(".cwasm");
    reveal_strlit("debug.cwasm");
    reveal_strlit(".debug.cwasm");
    crate::path::extensions_stand_behind_the_last_dot(dir, stem, ext, "cwasm"@);
    crate::path::extensions_stand_behind_the_last_dot(dir, stem, ext, "debug.cwasm"@);
    assert(dir + stem + seq!['.'] + "cwasm"@ =~= dir + stem + ".cwasm"@);
    assert(dir + stem + seq!['.'] + "debug.cwasm"@ =~= dir + stem + ".debug.cwasm"@);
}

/// The reserve is read as a decimal number with white space around it, and nothing is reserved
/// where the environment does not say. What is reserved of `n` MiB is `n` MiB, up to 1900.
pub proof fn reserves_are_read_as_written(l: Seq<char>, n: nat, r: Seq<char>)
    requires
        forall|i: int| 0 <= i < l.len() ==> crate::text::is_space(#[trigger] l[i]),
        forall|i: int| 0 <= i < r.len() ==> crate::text::is_space(#[trigger] r[i]),
    ensures
        n <= u64::MAX ==> reserve_asked(Some(l + crate::number::decimal(n as int) + r)) == Some(n),
        reserve_asked(None) == Some(0nat),
        n <= 1900 ==> balloon_len(n) == n * 131072,
        n > 1900 ==> balloon_len(n) == 1900 * 131072,
{
    let t = crate::number::decimal(n as int);
    crate::number::decimals_have_no_letters(n as int);
    assert(crate::number::is_digit(t[0]) && crate::number::is_digit(t[t.len() - 1]));
    crate::text::trimming_leaves_the_text(l, t, r);
    if n <= u64::MAX {
        crate::number::reading_undoes_writing(n as int, u64::MAX as nat);
    }
}

/// White space around a reserve does not count, and the rest is read as a number.
pub proof fn reserves_are_numbers(l: Seq<char>, t: Seq<char>, r: Seq<char>)
    requires
        forall|i: int| 0 <= i < l.len() ==> crate::text::is_space(#[trigger] l[i]),
        forall|i: int| 0 <= i < r.len() ==> crate::text::is_space(#[trigger] r[i]),
        t.len() > 0 ==> !crate::text::is_space(t[0]) && !crate::text::is_space(t.last()),
    ensures
        reserve_asked(Some(l + t + r)) == parse_unsigned(t, u64::MAX as nat),
{
    crate::text::trimming_leaves_the_text(l, t, r);
}

/// A reserve that holds something other than digits and the white space around them is refused.
pub proof fn other_reserves_are_refused(l: Seq<char>, t: Seq<char>, r: Seq<char>, i: int)
    requires
        forall|k: int| 0 <= k < l.len() ==> crate::text::is_space(#[trigger] l[k]),
        forall|k: int| 0 <= k < r.len() ==> crate::text::is_space(#[trigger] r[k]),
        t.len() > 0 ==> !crate::text::is_space(t[0]) && !crate::text::is_space(t.last()),
        0 <= i < t.len(),
        !crate::number::is_digit(t[i]),
        i > 0 || (t[i] != '+' && t[i] != '-'),
    ensures
        reserve_asked(Some(l + t + r)) is None,
{
    crate::text::trimming_leaves_the_text(l, t, r);
    crate::number::other_characters_are_not_read(t, i, u64::MAX as nat);
}

/// A wasm file whose name has no extension is precompiled to one that has.
pub proof fn bare_names_get_an_extension(dir: Seq<char>, n: Seq<char>)
    requires
        crate::path::is_dir_part(dir),
        crate::path::is_name(n),
        forall|i: int| 1 <= i < n.len() ==> n[i] != '.',
    ensures
        cwasm_path(dir + n, false) == dir + n + ".cwasm"@,
        cwasm_path(dir + n, true) == dir + n + ".debug.cwasm"@,
{
    reveal_strlit("cwasm");
    reveal_strlit(".cwasm");
    reveal_strlit("debug.cwasm");
    reveal_strlit(".debug.cwasm");
    crate::path::names_without_a_dot_have_no_extension(dir, n, "cwasm"@);
    crate::path::names_without_a_dot_have_no_extension(dir, n, "debug.cwasm"@);
    assert(dir + n + seq!['.'] + "cwasm"@ =~= dir + n + ".cwasm"@);
    assert(dir + n + seq!['.'] + "debug.cwasm"@ =~= dir + n + ".debug.cwasm"@);
}

} // verus!

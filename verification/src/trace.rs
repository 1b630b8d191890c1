//! Stack traces for guests.
//!
//! The host offers three functions that capture and format the guest's stack. Their types are
//! those that the guest imports them with, and a trace reaches the guest as a string that the
//! guest makes and the host fills byte by byte.
use vstd::prelude::*;
use vstd::utf8::encode_utf8;

use wasmtime::Module;

use crate::engine::module_imports;
use crate::guest::{signatures, HostFunction, WasmType};
use crate::text::{glue, same_text};

verus! {

// ---------------------------------------------------------------------------------------------
// The functions and their types
// ---------------------------------------------------------------------------------------------
/// An import of a guest.
#[derive(Debug)]
pub struct ImportDecl {
    pub module: String,
    pub name: String,
    pub is_func: bool,
}

/// Imports as plain values.
pub open spec fn import_texts(imports: Seq<ImportDecl>) -> Seq<(Seq<char>, Seq<char>, bool)> {
    Seq::new(imports.len(), |i: int| (imports[i].module@, imports[i].name@, imports[i].is_func))
}

/// `wasmtime::Module::imports`: the imports in the order in which the module declares them, each
/// with whether it is a function.
#[verifier::external_body]
fn list_imports(module: &Module) -> (r: Vec<ImportDecl>)
    ensures
        import_texts(r@) == module_imports(*module),
{
    module.imports().map(
        |i| ImportDecl {
            module: i.module().to_owned(),
            name: i.name().to_owned(),
            is_func: i.ty().func().is_some(),
        },
    ).collect()
}

/// Import `i` is that of the host function `name`.
pub open spec fn names_helper(
    imports: Seq<(Seq<char>, Seq<char>, bool)>,
    name: Seq<char>,
    i: int,
) -> bool {
    0 <= i < imports.len() && imports[i].0 == "env"@ && imports[i].1 == name
}

/// The import that gives a host function its type: the first of its name in `env`, where that is
/// a function. Otherwise the function has its default type.
pub open spec fn is_typing_import(
    imports: Seq<(Seq<char>, Seq<char>, bool)>,
    name: Seq<char>,
    r: Option<usize>,
) -> bool {
    match r {
        Some(i) => {
            &&& names_helper(imports, name, i as int)
            &&& imports[i as int].2
            &&& forall|j: int| 0 <= j < i ==> !#[trigger] names_helper(imports, name, j)
        },
        None => forall|i: int| #[trigger]
            names_helper(imports, name, i) && (forall|j: int|
                0 <= j < i ==> !#[trigger] names_helper(imports, name, j)) ==> !imports[i].2,
    }
}

/// The import that gives a host function its type.
pub fn typing_import(imports: &Vec<ImportDecl>, name: &str) -> (r: Option<usize>)
    ensures
        is_typing_import(import_texts(imports@), name@, r),
{
    let ghost decls = import_texts(imports@);
    let mut i: usize = 0;
    while i < imports.len()
        invariant
            i <= imports@.len(),
            decls == import_texts(imports@),
            forall|j: int| 0 <= j < i ==> !#[trigger] names_helper(decls, name@, j),
        decreases imports@.len() - i,
    {
        let named: bool = same_text(&imports[i].module, "env") && same_text(
            &imports[i].name,
            name,
        );
        assert(named == names_helper(decls, name@, i as int));
        if named {
            if imports[i].is_func {
                return Some(i);
            }
            assert forall|k: int| #[trigger]
                names_helper(decls, name@, k) && (forall|j: int|
                    0 <= j < k ==> !#[trigger] names_helper(decls, name@, j)) implies !decls[k].2 by {
                if i < k {
                    assert(!names_helper(decls, name@, i as int));
                }
            }
            return None;
        }
        i += 1;
    }
    None
}

/// The three functions and their default types.
pub open spec fn helper_signatures() -> Seq<(Seq<char>, Seq<WasmType>, Seq<WasmType>)> {
    seq![
        ("getStackTrace"@, Seq::empty(), seq![WasmType::ExternRef]),
        ("captureStackTrace"@, Seq::empty(), seq![WasmType::ExternRef]),
        ("formatStackTrace"@, seq![WasmType::ExternRef], seq![WasmType::ExternRef]),
    ]
}

/// The three functions and their default types.
pub fn trace_functions() -> (r: Vec<HostFunction>)
    ensures
        signatures(r@) == helper_signatures(),
{
    let mut out: Vec<HostFunction> = Vec::new();
    let mut get: Vec<WasmType> = Vec::new();
    get.push(WasmType::ExternRef);
    let mut capture: Vec<WasmType> = Vec::new();
    capture.push(WasmType::ExternRef);
    let mut given: Vec<WasmType> = Vec::new();
    given.push(WasmType::ExternRef);
    let mut formatted: Vec<WasmType> = Vec::new();
    formatted.push(WasmType::ExternRef);
    let ghost one = seq![WasmType::ExternRef];
    assert(get@ =~= one && capture@ =~= one && given@ =~= one && formatted@ =~= one);
    out.push(HostFunction { name: "getStackTrace".to_owned(), params: Vec::new(), results: get });
    out.push(
        HostFunction {
            name: "captureStackTrace".to_owned(),
            params: Vec::new(),
            results: capture,
        },
    );
    out.push(
        HostFunction { name: "formatStackTrace".to_owned(), params: given, results: formatted },
    );
    assert(signatures(out@) =~= helper_signatures());
    out
}

/// One of the three functions: its default type, and the guest's import that overrides it.
#[derive(Debug)]
pub struct TraceHelper {
    pub function: HostFunction,
    /// The position of the import whose type the function takes instead.
    pub import: Option<usize>,
}

/// Works out the three functions for a guest, each with the type that the guest imports it with.
pub fn add_stack_trace_helpers(module: &Module) -> (r: Vec<TraceHelper>)
    ensures
        r@.len() == 3,
        forall|i: int|
            0 <= i < 3 ==> {
                let f = (#[trigger] r@[i]).function;
                &&& (f.name@, f.params@, f.results@) == helper_signatures()[i]
                &&& is_typing_import(module_imports(*module), f.name@, r@[i].import)
            },
{
    let imports: Vec<ImportDecl> = list_imports(module);
    let mut functions: Vec<HostFunction> = trace_functions();
    let ghost all = functions@;
    assert(all.len() == 3) by {
        assert(signatures(all).len() == 3);
    }
    assert forall|i: int| 0 <= i < 3 implies {
        let f = #[trigger] all[i];
        (f.name@, f.params@, f.results@) == helper_signatures()[i]
    } by {
        assert(signatures(all)[i] == helper_signatures()[i]);
    }
    let mut out: Vec<TraceHelper> = Vec::new();
    let format: HostFunction = functions.remove(2);
    let capture: HostFunction = functions.remove(1);
    let get: HostFunction = functions.remove(0);
    assert(get == all[0] && capture == all[1] && format == all[2]);
    let get_import: Option<usize> = typing_import(&imports, &get.name);
    let capture_import: Option<usize> = typing_import(&imports, &capture.name);
    let format_import: Option<usize> = typing_import(&imports, &format.name);
    out.push(TraceHelper { function: get, import: get_import });
    out.push(TraceHelper { function: capture, import: capture_import });
    out.push(TraceHelper { function: format, import: format_import });
    out
}

// ---------------------------------------------------------------------------------------------
// Handing over a trace
// ---------------------------------------------------------------------------------------------
/// How a trace reaches the guest.
#[derive(Debug)]
pub enum TraceTransfer {
    /// As a null reference.
    Null,
    /// As a string of `len` bytes that the guest makes. Each write is a position and a byte.
    Fill { len: i32, writes: Vec<(i32, i32)> },
}

/// The writes that fill a string with bytes, in order.
pub open spec fn byte_writes(bytes: Seq<u8>) -> Seq<(i32, i32)> {
    Seq::new(bytes.len(), |i: int| ((i as usize) as i32, bytes[i] as i32))
}

/// A string after writes.
pub open spec fn filled(string: Seq<u8>, writes: Seq<(i32, i32)>) -> Seq<u8>
    decreases writes.len(),
{
    if writes.len() == 0 {
        string
    } else {
        let (at, byte) = writes.last();
        filled(string, writes.drop_last()).update(at as int, byte as u8)
    }
}

/// Works out how a trace reaches the guest. An empty trace, and one for a guest that does not
/// export the two functions that make and fill a string, is a null reference.
pub fn transfer_trace(trace: &str, can_create: bool, can_set_byte: bool) -> (r: TraceTransfer)
    ensures
        match r {
            TraceTransfer::Null => trace@.len() == 0 || !can_create || !can_set_byte,
            TraceTransfer::Fill { len, writes } => {
                &&& trace@.len() > 0
                &&& can_create
                &&& can_set_byte
                &&& len == encode_utf8(trace@).len() as usize as i32
                &&& writes@ == byte_writes(encode_utf8(trace@))
            },
        },
{
    if trace.is_empty() || !can_create || !can_set_byte {
        return TraceTransfer::Null;
    }
    let bytes: &[u8] = trace.as_bytes();
    let mut writes: Vec<(i32, i32)> = Vec::new();
    let mut i: usize = 0;
    while i < bytes.len()
        invariant
            i <= bytes@.len(),
            writes@ == byte_writes(bytes@).take(i as int),
        decreases bytes@.len() - i,
    {
        writes.push((#[verifier::truncate] (i as i32), bytes[i] as i32));
        assert(writes@ =~= byte_writes(bytes@).take(i + 1));
        i += 1;
    }
    assert(byte_writes(bytes@).take(i as int) =~= byte_writes(bytes@));
    TraceTransfer::Fill { len: #[verifier::truncate] (bytes.len() as i32), writes }
}

/// The writes of a trace fill a string of its length with exactly its bytes, whatever the string
/// held before.
pub proof fn writes_rebuild_the_trace(bytes: Seq<u8>, string: Seq<u8>)
    requires
        bytes.len() <= i32::MAX,
        string.len() == bytes.len(),
    ensures
        filled(string, byte_writes(bytes)) == bytes,
{
    lemma_filled(bytes, string, bytes.len() as int);
    assert(byte_writes(bytes).take(bytes.len() as int) =~= byte_writes(bytes));
}

proof fn lemma_filled(bytes: Seq<u8>, string: Seq<u8>, n: int)
    requires
        bytes.len() <= i32::MAX,
        string.len() == bytes.len(),
        0 <= n <= bytes.len(),
    ensures
        filled(string, byte_writes(bytes).take(n)) == bytes.take(n) + string.skip(n),
    decreases n,
{
    let writes = byte_writes(bytes).take(n);
    if n == 0 {
        assert(bytes.take(0) + string.skip(0) =~= string);
    } else {
        lemma_filled(bytes, string, n - 1);
        assert(writes.drop_last() =~= byte_writes(bytes).take(n - 1));
        assert(writes.last() == byte_writes(bytes)[n - 1]);
        assert(bytes.take(n) + string.skip(n) =~= (bytes.take(n - 1) + string.skip(n - 1)).update(
            n - 1,
            bytes[n - 1],
        ));
    }
}

// ---------------------------------------------------------------------------------------------
// Formatting
// ---------------------------------------------------------------------------------------------
/// What a guest hands over to be formatted.
#[derive(Debug)]
pub enum TraceArg {
    /// An external reference.
    Extern,
    /// A reference of another kind, which can be turned into an external one.
    Any,
    /// A null reference.
    Null,
    /// Something else, as it is shown to the user.
    Other { shown: String },
}

/// What to do with what a guest hands over.
#[derive(Debug)]
pub enum FormatStep {
    /// Format what the reference holds.
    Format,
    /// Turn the reference into an external one, then format what that holds.
    ConvertThenFormat,
    /// Hand a null reference back.
    HandBackNull,
    /// Stop the guest with this message.
    Stop(String),
}

/// What to do with what a guest hands over to be formatted.
pub fn format_step(arg: TraceArg) -> (r: FormatStep)
    ensures
        match arg {
            TraceArg::Extern => r is Format,
            TraceArg::Any => r is ConvertThenFormat,
            TraceArg::Null => r is HandBackNull,
            TraceArg::Other { shown } => r matches FormatStep::Stop(message) && message@
                == "formatStackTrace: Expected ExternRef or AnyRef, got "@ + shown@,
        },
{
    match arg {
        TraceArg::Extern => FormatStep::Format,
        TraceArg::Any => FormatStep::ConvertThenFormat,
        TraceArg::Null => FormatStep::HandBackNull,
        TraceArg::Other { shown } => FormatStep::Stop(
            glue("formatStackTrace: Expected ExternRef or AnyRef, got ", &shown),
        ),
    }
}

/// What to say of a reference that does not hold a trace.
pub fn not_a_trace_message() -> (r: String)
    ensures
        r@ == "formatStackTrace: Failed to downcast ExternRef data to WasmBacktrace"@,
{
    "formatStackTrace: Failed to downcast ExternRef data to WasmBacktrace".to_owned()
}

/// The first import of a host function's name from `env` decides its type, where it is a function;
/// without one the function keeps its own.
pub proof fn the_first_import_types_a_function(
    before: Seq<(Seq<char>, Seq<char>, bool)>,
    is_func: bool,
    behind: Seq<(Seq<char>, Seq<char>, bool)>,
    name: Seq<char>,
    r: Option<usize>,
)
    requires
        before.len() <= usize::MAX,
        forall|i: int|
            0 <= i < before.len() ==> (#[trigger] before[i]).0 != "env"@ || before[i].1 != name,
    ensures
        is_typing_import(before + seq![("env"@, name, is_func)] + behind, name, r) <==> r == (
        if is_func {
            Some(before.len() as usize)
        } else {
            None
        }),
        is_typing_import(before, name, r) <==> r is None,
{
    let all = before + seq![("env"@, name, is_func)] + behind;
    let k = before.len() as int;
    assert(all[k] == ("env"@, name, is_func));
    assert forall|i: int| 0 <= i < k implies !#[trigger] names_helper(all, name, i) by {
        assert(all[i] == before[i]);
    }
    assert(names_helper(all, name, k));
    assert forall|i: int| !#[trigger] names_helper(before, name, i) by {
        if 0 <= i < k {
            assert(before[i].0 != "env"@ || before[i].1 != name);
        }
    }
    match r {
        Some(i) => {
            if is_typing_import(all, name, r) && i > k {
                assert(!names_helper(all, name, k));
            }
        },
        None => {},
    }
}

/// The three functions hand out a reference; the one that formats takes one, too.
pub proof fn traces_are_references(i: int)
    requires
        0 <= i < helper_signatures().len(),
    ensures
        helper_signatures().len() == 3,
        helper_signatures()[0].0 == "getStackTrace"@,
        helper_signatures()[1].0 == "captureStackTrace"@,
        helper_signatures()[2].0 == "formatStackTrace"@,
        helper_signatures()[i].2 == seq![WasmType::ExternRef],
        i < 2 ==> helper_signatures()[i].1.len() == 0,
        i == 2 ==> helper_signatures()[i].1 == seq![WasmType::ExternRef],
{
}

} // verus!

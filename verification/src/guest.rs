//! Guests: the values that they return, the types of their imports, and how they are started.
use vstd::prelude::*;

use crate::args::push_all;
use crate::number::{decimal, to_signed_decimal};
use crate::text::{glue, texts};

verus! {

/// A value that a guest returned.
#[derive(Clone, Copy, Debug, PartialEq, Eq, Structural)]
pub enum GuestValue {
    I32(i32),
    I64(i64),
    /// A value of another type.
    Other,
}

/// A type of a guest's parameters and results.
#[derive(Clone, Copy, Debug, PartialEq, Eq, Structural)]
pub enum WasmType {
    I32,
    F64,
    ExternRef,
}

/// A function that the host offers to guests, in the module `env`.
#[derive(Debug)]
pub struct HostFunction {
    pub name: String,
    pub params: Vec<WasmType>,
    pub results: Vec<WasmType>,
}

/// The name, parameters and results of host functions.
pub open spec fn signatures(functions: Seq<HostFunction>) -> Seq<
    (Seq<char>, Seq<WasmType>, Seq<WasmType>),
> {
    Seq::new(
        functions.len(),
        |i: int| (functions[i].name@, functions[i].params@, functions[i].results@),
    )
}

/// What a program shows for its first result. A value of another type is shown by the host.
pub open spec fn result_text(value: GuestValue) -> Option<Seq<char>> {
    match value {
        GuestValue::I32(n) => Some(decimal(n as int)),
        GuestValue::I64(n) => Some(decimal(n as int)),
        GuestValue::Other => None,
    }
}

/// What a program shows for its first result.
pub fn show_result(value: GuestValue) -> (r: Option<String>)
    ensures
        crate::text::opt_text(r) == result_text(value),
{
    match value {
        GuestValue::I32(n) => Some(to_signed_decimal(n as i64)),
        GuestValue::I64(n) => Some(to_signed_decimal(n)),
        GuestValue::Other => None,
    }
}

/// The exit code of one of the tool's own programs: the 32-bit number that it returned, or else
/// zero.
pub fn exit_code(first: Option<GuestValue>) -> (r: i32)
    ensures
        r == (match first {
            Some(GuestValue::I32(code)) => code,
            _ => 0i32,
        }),
{
    match first {
        Some(GuestValue::I32(code)) => code,
        _ => 0,
    }
}

/// The arguments of a guest: by convention the first is the program's name.
pub fn guest_args(program: &str, args: &Vec<String>) -> (r: Vec<String>)
    ensures
        texts(r@) == seq![program@] + texts(args@),
{
    let mut all: Vec<String> = Vec::new();
    all.push(program.to_owned());
    assert(texts(all@) =~= seq![program@]);
    push_all(&mut all, args);
    all
}

/// What to say of a function that a guest does not export.
pub fn missing_export_message(name: &str) -> (r: String)
    ensures
        r@ == "failed to find `"@ + name@ + "` export"@,
{
    let head: String = glue("failed to find `", name);
    glue(&head, "` export")
}

/// What is shown of a number that a program returned is that number, read as a decimal; nothing is
/// shown of another value.
pub proof fn shown_results_are_what_was_returned(n: i32, m: i64)
    ensures
        result_text(GuestValue::I32(n)) matches Some(t) && crate::number::parse_signed(
            t,
            i32::MAX as nat,
        ) == Some(n as int),
        result_text(GuestValue::I64(m)) matches Some(t) && crate::number::parse_signed(
            t,
            i64::MAX as nat,
        ) == Some(m as int),
        result_text(GuestValue::Other) is None,
{
    crate::number::reading_undoes_writing(n as int, i32::MAX as nat);
    crate::number::reading_undoes_writing(m as int, i64::MAX as nat);
}

} // verus!

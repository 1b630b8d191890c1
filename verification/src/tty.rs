//! The terminal that programs draw on.
//!
//! A program draws through clayterm, a module of its own with its own memory. The host lays that
//! memory out, copies between it and the program's memory, and reads and switches the terminal.
use vstd::prelude::*;

use crate::guest::{signatures, GuestValue, HostFunction, WasmType};
use crate::text::same_text;
use crate::trace::helper_signatures;

verus! {

/// The bytes in a page of memory.
pub const WASM_PAGE: u64 = 65536;

/// The bytes that one transfer to clayterm can take.
pub const TRANSFER_BUDGET: u64 = 1024 * 1024 + 8192 * 116;

/// The bytes of an input event.
pub const EVENT_SIZE: i32 = 64;

// ---------------------------------------------------------------------------------------------
// The layout of clayterm's memory
// ---------------------------------------------------------------------------------------------
/// Where clayterm keeps its state, takes transfers, and keeps its input state.
#[derive(Clone, Copy, Debug, PartialEq, Eq, Structural)]
pub struct ClayTerm {
    pub state_ptr: i32,
    pub ops_buf: i32,
    pub input_ptr: i32,
}

/// The next multiple of four.
pub open spec fn aligned(x: int) -> int {
    (x + 3) - (x + 3) % 4
}

/// As many pages as hold that many bytes.
pub open spec fn pages_for(bytes: int) -> int {
    (bytes + WASM_PAGE - 1) / WASM_PAGE as int
}

/// Where transfers go: behind the state.
pub open spec fn ops_at(heap_base: i32, state_size: i32) -> int {
    aligned(heap_base + state_size)
}

/// Where the input state goes: behind the transfers.
pub open spec fn input_at(heap_base: i32, state_size: i32) -> int {
    aligned(ops_at(heap_base, state_size) + TRANSFER_BUDGET)
}

/// The sizes are sizes, and the layout can be addressed.
pub open spec fn can_lay_out(heap_base: i32, state_size: i32, input_size: i32) -> bool {
    &&& heap_base >= 0
    &&& state_size >= 0
    &&& input_size >= 0
    &&& ops_at(heap_base, state_size) + TRANSFER_BUDGET + 3 <= i32::MAX
}

/// The pages that a memory lacks of those that hold that many bytes.
pub open spec fn missing_pages(bytes: int, pages: int) -> int {
    if pages_for(bytes) > pages {
        pages_for(bytes) - pages
    } else {
        0
    }
}

/// Where clayterm's heap starts: at the number in its global, or else at zero.
pub fn heap_base(global: Option<GuestValue>) -> (r: i32)
    ensures
        r == (match global {
            Some(GuestValue::I32(at)) => at,
            _ => 0i32,
        }),
{
    match global {
        Some(GuestValue::I32(at)) => at,
        _ => 0,
    }
}

/// The pages to add before clayterm makes its state, so that the state and one transfer fit.
/// None where a size is negative, which no memory can hold.
pub fn state_growth(heap_base: i32, state_size: i32, pages: u64) -> (r: Option<u64>)
    ensures
        match r {
            Some(extra) => {
                &&& heap_base >= 0
                &&& state_size >= 0
                &&& extra == missing_pages(heap_base + state_size + TRANSFER_BUDGET, pages as int)
            },
            None => heap_base < 0 || state_size < 0,
        },
{
    if heap_base < 0 || state_size < 0 {
        return None;
    }
    let needed: u64 = heap_base as u64 + state_size as u64 + TRANSFER_BUDGET;
    let wanted: u64 = (needed + WASM_PAGE - 1) / WASM_PAGE;
    if wanted > pages {
        Some(wanted - pages)
    } else {
        Some(0)
    }
}

/// Lays out clayterm's memory once the state is made: where transfers and the input state go, and
/// the pages to add so that the input state fits. None where the layout cannot be addressed.
pub fn load_clayterm(
    heap_base: i32,
    state_size: i32,
    state_ptr: i32,
    input_size: i32,
    memory_size: u64,
) -> (r: Option<(ClayTerm, u64)>)
    ensures
        match r {
            Some((term, extra)) => {
                &&& can_lay_out(heap_base, state_size, input_size)
                &&& term.state_ptr == state_ptr
                &&& term.ops_buf == ops_at(heap_base, state_size)
                &&& term.input_ptr == input_at(heap_base, state_size)
                &&& extra == (if term.input_ptr + input_size > memory_size {
                    pages_for(term.input_ptr + input_size - memory_size)
                } else {
                    0
                })
            },
            None => !can_lay_out(heap_base, state_size, input_size),
        },
{
    if heap_base < 0 || state_size < 0 || input_size < 0 {
        return None;
    }
    let behind_state: i64 = heap_base as i64 + state_size as i64 + 3;
    let ops: i64 = behind_state - behind_state % 4;
    let behind_ops: i64 = ops + TRANSFER_BUDGET as i64 + 3;
    if behind_ops > i32::MAX as i64 {
        return None;
    }
    let input: i64 = behind_ops - behind_ops % 4;
    let end: u64 = input as u64 + input_size as u64;
    let extra: u64 = if end > memory_size {
        (end - memory_size + WASM_PAGE - 1) / WASM_PAGE
    } else {
        0
    };
    Some((ClayTerm { state_ptr, ops_buf: ops as i32, input_ptr: input as i32 }, extra))
}

/// The state, a whole transfer and the input state lie behind one another, and the last two start
/// at multiples of four.
pub proof fn clay_regions_are_apart(heap_base: i32, state_size: i32)
    ensures
        heap_base + state_size <= ops_at(heap_base, state_size) < heap_base + state_size + 4,
        ops_at(heap_base, state_size) % 4 == 0,
        ops_at(heap_base, state_size) + TRANSFER_BUDGET <= input_at(heap_base, state_size)
            < ops_at(heap_base, state_size) + TRANSFER_BUDGET + 4,
        input_at(heap_base, state_size) % 4 == 0,
{
}

/// With the pages added before and behind making the state, the memory holds the state, a whole
/// transfer and the input state, and no page was added that is not needed.
pub proof fn clay_memory_suffices(heap_base: i32, state_size: i32, input_size: i32, pages: u64)
    requires
        can_lay_out(heap_base, state_size, input_size),
    ensures
        ({
            let needed = heap_base + state_size + TRANSFER_BUDGET;
            let end = input_at(heap_base, state_size) + input_size;
            let first = pages + missing_pages(needed, pages as int);
            let extra = if end > first * WASM_PAGE {
                pages_for(end - first * WASM_PAGE)
            } else {
                0
            };
            let all = first + extra;
            &&& all * WASM_PAGE >= needed
            &&& all * WASM_PAGE >= end
            &&& all > pages ==> (all - 1) * WASM_PAGE < needed || (all - 1) * WASM_PAGE < end
        }),
{
}

/// A transfer of at most the budget does not touch the state or the input state.
pub proof fn transfers_keep_the_states(
    heap_base: i32,
    state_size: i32,
    input_size: i32,
    memory: Seq<u8>,
    bytes: Seq<u8>,
)
    requires
        can_lay_out(heap_base, state_size, input_size),
        input_at(heap_base, state_size) + input_size <= memory.len(),
        bytes.len() <= TRANSFER_BUDGET,
    ensures
        ({
            let after = overwritten(memory, ops_at(heap_base, state_size), bytes);
            let input = input_at(heap_base, state_size);
            &&& after.len() == memory.len()
            &&& after.take(heap_base + state_size) == memory.take(heap_base + state_size)
            &&& after.subrange(input, input + input_size) == memory.subrange(
                input,
                input + input_size,
            )
        }),
{
    let ops = ops_at(heap_base, state_size);
    let input = input_at(heap_base, state_size);
    let after = overwritten(memory, ops, bytes);
    clay_regions_are_apart(heap_base, state_size);
    assert(after.take(heap_base + state_size) =~= memory.take(heap_base + state_size));
    assert(after.subrange(input, input + input_size) =~= memory.subrange(
        input,
        input + input_size,
    ));
}

// ---------------------------------------------------------------------------------------------
// Memory
// ---------------------------------------------------------------------------------------------
/// The `len` bytes from `ptr` on lie in a memory of that size.
pub open spec fn in_memory(ptr: i32, len: int, size: int) -> bool {
    0 <= ptr && 0 <= len && ptr + len <= size
}

/// A memory with bytes written over it.
pub open spec fn overwritten(memory: Seq<u8>, at: int, bytes: Seq<u8>) -> Seq<u8> {
    memory.take(at) + bytes + memory.skip(at + bytes.len())
}

/// Copies bytes out of a memory, where they lie in it.
pub fn read_window(memory: &[u8], ptr: i32, len: i32) -> (r: Option<Vec<u8>>)
    ensures
        match r {
            Some(bytes) => in_memory(ptr, len as int, memory@.len() as int) && bytes@
                == memory@.subrange(ptr as int, ptr + len),
            None => !in_memory(ptr, len as int, memory@.len() as int),
        },
{
    let size: usize = memory.len();
    if ptr < 0 || len < 0 || ptr as u64 + len as u64 > size as u64 {
        return None;
    }
    let from: usize = ptr as usize;
    let count: usize = len as usize;
    let mut bytes: Vec<u8> = Vec::new();
    let mut i: usize = 0;
    while i < count
        invariant
            i <= count,
            size == memory@.len(),
            from + count <= size,
            bytes@ == memory@.subrange(from as int, from + i),
        decreases count - i,
    {
        bytes.push(memory[from + i]);
        assert(bytes@ =~= memory@.subrange(from as int, from + i + 1));
        i += 1;
    }
    Some(bytes)
}

/// Writes bytes over a memory, where they fit, and says whether they did.
pub fn write_window(memory: &mut [u8], at: i32, bytes: &[u8]) -> (r: bool)
    ensures
        r == in_memory(at, bytes@.len() as int, old(memory)@.len() as int),
        final(memory)@ == (if r {
            overwritten(old(memory)@, at as int, bytes@)
        } else {
            old(memory)@
        }),
{
    let size: usize = memory.len();
    let count: usize = bytes.len();
    if at < 0 || at as u64 > size as u64 || count > size - at as usize {
        return false;
    }
    let from: usize = at as usize;
    let ghost start = memory@;
    let mut i: usize = 0;
    assert(memory@ =~= start.take(from as int) + bytes@.take(0) + start.skip(from as int));
    while i < count
        invariant
            i <= count,
            count == bytes@.len(),
            size == memory@.len(),
            size == start.len(),
            from + count <= size,
            memory@ == start.take(from as int) + bytes@.take(i as int) + start.skip(from + i),
        decreases count - i,
    {
        memory[from + i] = bytes[i];
        assert(memory@ =~= start.take(from as int) + bytes@.take(i + 1) + start.skip(
            from + i + 1,
        ));
        i += 1;
    }
    assert(bytes@.take(i as int) =~= bytes@);
    true
}

/// What was written into a memory is read back, and nothing else has changed.
pub proof fn written_bytes_are_read_back(memory: Seq<u8>, at: int, bytes: Seq<u8>)
    requires
        0 <= at <= at + bytes.len() <= memory.len(),
    ensures
        overwritten(memory, at, bytes).len() == memory.len(),
        overwritten(memory, at, bytes).subrange(at, at + bytes.len()) == bytes,
        forall|i: int|
            0 <= i < memory.len() && !(at <= i < at + bytes.len()) ==> #[trigger] overwritten(
                memory,
                at,
                bytes,
            )[i] == memory[i],
{
    assert(overwritten(memory, at, bytes).subrange(at, at + bytes.len()) =~= bytes);
}

/// Eight bytes of zero: a scroll offset of zero in both directions.
pub open spec fn no_scroll() -> Seq<u8> {
    Seq::new(8, |i: int| 0u8)
}

/// Answers clayterm's question for a scroll offset: always zero. Says whether the answer fitted.
pub fn answer_scroll_offset(memory: &mut [u8], at: i32) -> (r: bool)
    ensures
        r == in_memory(at, 8, old(memory)@.len() as int),
        final(memory)@ == (if r {
            overwritten(old(memory)@, at as int, no_scroll())
        } else {
            old(memory)@
        }),
{
    let zero: [u8; 8] = [0, 0, 0, 0, 0, 0, 0, 0];
    assert(zero@ =~= no_scroll());
    write_window(memory, at, &zero)
}

// ---------------------------------------------------------------------------------------------
// Calls of a program
// ---------------------------------------------------------------------------------------------
/// Why a call of a program cannot be answered.
#[derive(Clone, Copy, Debug, PartialEq, Eq, Structural)]
pub enum HostFault {
    /// No clayterm was loaded.
    NotInitialized,
    /// The program does not export its memory.
    NoMemory,
    /// The bytes that the call speaks of do not lie in memory.
    OutOfBounds,
}

impl HostFault {
    /// The message that the program is stopped with.
    pub open spec fn text(self) -> Seq<char> {
        match self {
            HostFault::NotInitialized => "clayterm not initialized"@,
            HostFault::NoMemory => "no Zena memory export"@,
            HostFault::OutOfBounds => "range out of bounds"@,
        }
    }

    /// The message that the program is stopped with.
    pub fn message(self) -> (r: &'static str)
        ensures
            r@ == self.text(),
            self is NotInitialized ==> r@ == "clayterm not initialized"@,
            self is NoMemory ==> r@ == "no Zena memory export"@,
            self is OutOfBounds ==> r@ == "range out of bounds"@,
    {
        match self {
            HostFault::NotInitialized => "clayterm not initialized",
            HostFault::NoMemory => "no Zena memory export",
            HostFault::OutOfBounds => "range out of bounds",
        }
    }
}

/// Bytes of the program on their way to clayterm.
#[derive(Debug)]
pub struct Transfer {
    pub bytes: Vec<u8>,
    pub term: ClayTerm,
}

/// The outcome of taking bytes out of a program's memory. A missing clayterm is found before a
/// missing memory.
pub open spec fn is_transfer(
    r: Result<Transfer, HostFault>,
    term: Option<ClayTerm>,
    memory: Option<Seq<u8>>,
    ptr: i32,
    len: i32,
) -> bool {
    match (term, memory) {
        (None, _) => r matches Err(fault) && fault == HostFault::NotInitialized,
        (Some(_), None) => r matches Err(fault) && fault == HostFault::NoMemory,
        (Some(t), Some(m)) => if in_memory(ptr, len as int, m.len() as int) {
            &&& r matches Ok(transfer)
            &&& transfer.bytes@ == m.subrange(ptr as int, ptr + len)
            &&& transfer.term == t
        } else {
            r matches Err(fault) && fault == HostFault::OutOfBounds
        },
    }
}

/// The bytes of an optional memory.
pub open spec fn opt_bytes(memory: Option<&[u8]>) -> Option<Seq<u8>> {
    match memory {
        Some(m) => Some(m@),
        None => None,
    }
}

/// Takes the bytes that a program wants drawn, or its input scanned, out of its memory. They are
/// then written to clayterm's transfer buffer.
pub fn take_transfer(
    term: Option<ClayTerm>,
    memory: Option<&[u8]>,
    ptr: i32,
    len: i32,
) -> (r: Result<Transfer, HostFault>)
    ensures
        is_transfer(r, term, opt_bytes(memory), ptr, len),
{
    match term {
        None => Err(HostFault::NotInitialized),
        Some(t) => match memory {
            None => Err(HostFault::NoMemory),
            Some(m) => match read_window(m, ptr, len) {
                Some(bytes) => Ok(Transfer { bytes, term: t }),
                None => Err(HostFault::OutOfBounds),
            },
        },
    }
}

/// The loaded clayterm.
pub fn loaded_term(term: Option<ClayTerm>) -> (r: Result<ClayTerm, HostFault>)
    ensures
        match term {
            Some(t) => r == Ok::<ClayTerm, HostFault>(t),
            None => r == Err::<ClayTerm, HostFault>(HostFault::NotInitialized),
        },
{
    match term {
        Some(t) => Ok(t),
        None => Err(HostFault::NotInitialized),
    }
}

/// The outcome of taking a number of bytes out of clayterm's memory.
pub open spec fn is_taken(r: Result<Vec<u8>, HostFault>, memory: Seq<u8>, ptr: i32, len: i32) -> bool {
    if in_memory(ptr, len as int, memory.len() as int) {
        r matches Ok(bytes) && bytes@ == memory.subrange(ptr as int, ptr + len)
    } else {
        r matches Err(fault) && fault == HostFault::OutOfBounds
    }
}

/// Takes what clayterm drew out of its memory. Where it drew nothing, nothing is looked at.
pub fn take_output(memory: &[u8], ptr: i32, len: i32) -> (r: Result<Vec<u8>, HostFault>)
    ensures
        if len == 0 {
            r matches Ok(bytes) && bytes@.len() == 0
        } else {
            is_taken(r, memory@, ptr, len)
        },
{
    if len == 0 {
        return Ok(Vec::new());
    }
    match read_window(memory, ptr, len) {
        Some(bytes) => Ok(bytes),
        None => Err(HostFault::OutOfBounds),
    }
}

/// Takes an input event out of clayterm's memory.
pub fn take_event(memory: &[u8], ptr: i32) -> (r: Result<Vec<u8>, HostFault>)
    ensures
        is_taken(r, memory@, ptr, EVENT_SIZE),
{
    match read_window(memory, ptr, EVENT_SIZE) {
        Some(bytes) => Ok(bytes),
        None => Err(HostFault::OutOfBounds),
    }
}

/// Hands an input event, or the bytes that were read, to the program.
pub fn give_bytes(memory: &mut [u8], at: i32, bytes: &[u8]) -> (r: Result<(), HostFault>)
    ensures
        match r {
            Ok(_) => {
                &&& in_memory(at, bytes@.len() as int, old(memory)@.len() as int)
                &&& final(memory)@ == overwritten(old(memory)@, at as int, bytes@)
            },
            Err(fault) => {
                &&& fault == HostFault::OutOfBounds
                &&& !in_memory(at, bytes@.len() as int, old(memory)@.len() as int)
                &&& final(memory)@ == old(memory)@
            },
        },
{
    if write_window(memory, at, bytes) {
        Ok(())
    } else {
        Err(HostFault::OutOfBounds)
    }
}

/// The place of a program's buffer in its memory, for the host to read into.
pub fn buffer_range(ptr: i32, len: i32, size: usize) -> (r: Result<(usize, usize), HostFault>)
    ensures
        match r {
            Ok((from, to)) => in_memory(ptr, len as int, size as int) && from == ptr && to == ptr
                + len,
            Err(fault) => fault == HostFault::OutOfBounds && !in_memory(
                ptr,
                len as int,
                size as int,
            ),
        },
{
    if ptr < 0 || len < 0 || ptr as u64 + len as u64 > size as u64 {
        return Err(HostFault::OutOfBounds);
    }
    Ok((ptr as usize, ptr as usize + len as usize))
}

/// What a program is told of a read: the number of bytes, or minus one where the read failed.
pub fn read_answer(read: Option<usize>) -> (r: i32)
    ensures
        r == (match read {
            Some(n) => n as i32,
            None => -1i32,
        }),
{
    match read {
        Some(n) => #[verifier::truncate] (n as i32),
        None => -1,
    }
}

// ---------------------------------------------------------------------------------------------
// The host's functions
// ---------------------------------------------------------------------------------------------
/// The functions that the host offers for drawing and for the terminal.
pub open spec fn tty_signatures() -> Seq<(Seq<char>, Seq<WasmType>, Seq<WasmType>)> {
    seq![
        ("clayterm_reduce"@, seq![WasmType::I32, WasmType::I32, WasmType::I32, WasmType::I32, WasmType::F64], Seq::empty()),
        ("clayterm_flush"@, Seq::empty(), Seq::empty()),
        ("clayterm_animating"@, Seq::empty(), seq![WasmType::I32]),
        ("clayterm_input_scan"@, seq![WasmType::I32, WasmType::I32], Seq::empty()),
        ("clayterm_input_count"@, Seq::empty(), seq![WasmType::I32]),
        ("clayterm_input_event"@, seq![WasmType::I32, WasmType::I32], Seq::empty()),
        ("clayterm_input_delay"@, Seq::empty(), seq![WasmType::F64]),
        ("tty_enable_raw_mode"@, Seq::empty(), Seq::empty()),
        ("tty_disable_raw_mode"@, Seq::empty(), Seq::empty()),
        ("tty_read_stdin"@, seq![WasmType::I32, WasmType::I32], seq![WasmType::I32]),
        ("tty_get_cols"@, Seq::empty(), seq![WasmType::I32]),
        ("tty_get_rows"@, Seq::empty(), seq![WasmType::I32]),
    ]
}

fn one_i32() -> (r: Vec<WasmType>)
    ensures
        r@ == seq![WasmType::I32],
{
    let mut types: Vec<WasmType> = Vec::new();
    types.push(WasmType::I32);
    assert(types@ =~= seq![WasmType::I32]);
    types
}

fn one_f64() -> (r: Vec<WasmType>)
    ensures
        r@ == seq![WasmType::F64],
{
    let mut types: Vec<WasmType> = Vec::new();
    types.push(WasmType::F64);
    assert(types@ =~= seq![WasmType::F64]);
    types
}

fn two_i32() -> (r: Vec<WasmType>)
    ensures
        r@ == seq![WasmType::I32, WasmType::I32],
{
    let mut types: Vec<WasmType> = one_i32();
    types.push(WasmType::I32);
    assert(types@ =~= seq![WasmType::I32, WasmType::I32]);
    types
}

fn reduce_params() -> (r: Vec<WasmType>)
    ensures
        r@ == seq![WasmType::I32, WasmType::I32, WasmType::I32, WasmType::I32, WasmType::F64],
{
    let mut types: Vec<WasmType> = two_i32();
    types.push(WasmType::I32);
    types.push(WasmType::I32);
    types.push(WasmType::F64);
    assert(types@ =~= seq![
        WasmType::I32,
        WasmType::I32,
        WasmType::I32,
        WasmType::I32,
        WasmType::F64,
    ]);
    types
}

fn add_function(
    out: &mut Vec<HostFunction>,
    name: &str,
    params: Vec<WasmType>,
    results: Vec<WasmType>,
)
    ensures
        signatures(final(out)@) == signatures(old(out)@).push((name@, params@, results@)),
{
    out.push(HostFunction { name: name.to_owned(), params, results });
    assert(signatures(out@) =~= signatures(old(out)@).push((name@, params@, results@)));
}

/// The functions that the host offers for drawing and for the terminal.
pub fn add_tty_imports() -> (r: Vec<HostFunction>)
    ensures
        signatures(r@) == tty_signatures(),
{
    let mut out: Vec<HostFunction> = Vec::new();
    assert(signatures(out@) =~= Seq::empty());
    add_function(&mut out, "clayterm_reduce", reduce_params(), Vec::new());
    add_function(&mut out, "clayterm_flush", Vec::new(), Vec::new());
    add_function(&mut out, "clayterm_animating", Vec::new(), one_i32());
    add_function(&mut out, "clayterm_input_scan", two_i32(), Vec::new());
    add_function(&mut out, "clayterm_input_count", Vec::new(), one_i32());
    add_function(&mut out, "clayterm_input_event", two_i32(), Vec::new());
    add_function(&mut out, "clayterm_input_delay", Vec::new(), one_f64());
    add_function(&mut out, "tty_enable_raw_mode", Vec::new(), Vec::new());
    add_function(&mut out, "tty_disable_raw_mode", Vec::new(), Vec::new());
    add_function(&mut out, "tty_read_stdin", two_i32(), one_i32());
    add_function(&mut out, "tty_get_cols", Vec::new(), one_i32());
    add_function(&mut out, "tty_get_rows", Vec::new(), one_i32());
    assert(signatures(out@) =~= tty_signatures());
    out
}

/// The host never offers two functions under one name, so all of them can be offered together.
pub proof fn host_functions_have_their_own_names(i: int, j: int)
    requires
        0 <= i < j < (helper_signatures() + tty_signatures()).len(),
    ensures
        (helper_signatures() + tty_signatures())[i].0 != (helper_signatures()
            + tty_signatures())[j].0,
{
    lemma_tty_names();
}

/// What tells the names of the host's functions apart.
proof fn lemma_tty_names()
    ensures
        "clayterm_reduce"@.len() == 15,
        "clayterm_flush"@.len() == 14,
        "clayterm_animating"@.len() == 18,
        "clayterm_input_scan"@.len() == 19,
        "clayterm_input_count"@.len() == 20,
        "clayterm_input_event"@.len() == 20,
        "clayterm_input_delay"@.len() == 20,
        "tty_enable_raw_mode"@.len() == 19,
        "tty_disable_raw_mode"@.len() == 20,
        "tty_read_stdin"@.len() == 14,
        "tty_get_cols"@.len() == 12,
        "tty_get_rows"@.len() == 12,
        "getStackTrace"@.len() == 13,
        "captureStackTrace"@.len() == 17,
        "formatStackTrace"@.len() == 16,
        "clayterm_flush"@[0] == 'c' && "tty_read_stdin"@[0] == 't',
        "clayterm_input_scan"@[0] == 'c' && "tty_enable_raw_mode"@[0] == 't',
        "clayterm_input_count"@[0] == 'c' && "clayterm_input_count"@[15] == 'c',
        "clayterm_input_event"@[0] == 'c' && "clayterm_input_event"@[15] == 'e',
        "clayterm_input_delay"@[0] == 'c' && "clayterm_input_delay"@[15] == 'd',
        "tty_disable_raw_mode"@[0] == 't',
        "tty_get_cols"@[8] == 'c' && "tty_get_rows"@[8] == 'r',
{
    reveal_strlit("clayterm_reduce");
    reveal_strlit("clayterm_flush");
    reveal_strlit("clayterm_animating");
    reveal_strlit("clayterm_input_scan");
    reveal_strlit("clayterm_input_count");
    reveal_strlit("clayterm_input_event");
    reveal_strlit("clayterm_input_delay");
    reveal_strlit("tty_enable_raw_mode");
    reveal_strlit("tty_disable_raw_mode");
    reveal_strlit("tty_read_stdin");
    reveal_strlit("tty_get_cols");
    reveal_strlit("tty_get_rows");
    reveal_strlit("getStackTrace");
    reveal_strlit("captureStackTrace");
    reveal_strlit("formatStackTrace");
}

// ---------------------------------------------------------------------------------------------
// Answering a program
// ---------------------------------------------------------------------------------------------
/// What a program asks of the host, with the numbers that it hands over. A time that it hands over
/// passes through the host as it is.
#[derive(Clone, Copy, Debug, PartialEq, Eq, Structural)]
pub enum HostRequest {
    Reduce { ptr: i32, len: i32, mode: i32, row: i32 },
    Flush,
    Animating,
    InputScan { ptr: i32, len: i32 },
    InputCount,
    InputEvent { index: i32, out: i32 },
    InputDelay,
    EnableRawMode,
    DisableRawMode,
    ReadStdin { ptr: i32, len: i32 },
    Columns,
    Rows,
}

impl HostRequest {
    /// The request is one for clayterm.
    pub open spec fn draws(self) -> bool {
        match self {
            HostRequest::Reduce { .. } => true,
            HostRequest::Flush => true,
            HostRequest::Animating => true,
            HostRequest::InputScan { .. } => true,
            HostRequest::InputCount => true,
            HostRequest::InputEvent { .. } => true,
            HostRequest::InputDelay => true,
            _ => false,
        }
    }

    /// The bytes of the program's memory that go to clayterm with the request.
    pub open spec fn sent(self) -> Option<(i32, i32)> {
        match self {
            HostRequest::Reduce { ptr, len, .. } => Some((ptr, len)),
            HostRequest::InputScan { ptr, len } => Some((ptr, len)),
            _ => None,
        }
    }
}

/// The request that a call of a host function stands for, given the whole numbers among its
/// arguments.
pub open spec fn request_of(name: Seq<char>, args: Seq<i32>) -> Option<HostRequest> {
    if name == "clayterm_reduce"@ && args.len() == 4 {
        Some(
            HostRequest::Reduce { ptr: args[0], len: args[1], mode: args[2], row: args[3] },
        )
    } else if name == "clayterm_input_scan"@ && args.len() == 2 {
        Some(HostRequest::InputScan { ptr: args[0], len: args[1] })
    } else if name == "clayterm_input_event"@ && args.len() == 2 {
        Some(HostRequest::InputEvent { index: args[0], out: args[1] })
    } else if name == "tty_read_stdin"@ && args.len() == 2 {
        Some(HostRequest::ReadStdin { ptr: args[0], len: args[1] })
    } else if args.len() != 0 {
        None
    } else if name == "clayterm_flush"@ {
        Some(HostRequest::Flush)
    } else if name == "clayterm_animating"@ {
        Some(HostRequest::Animating)
    } else if name == "clayterm_input_count"@ {
        Some(HostRequest::InputCount)
    } else if name == "clayterm_input_delay"@ {
        Some(HostRequest::InputDelay)
    } else if name == "tty_enable_raw_mode"@ {
        Some(HostRequest::EnableRawMode)
    } else if name == "tty_disable_raw_mode"@ {
        Some(HostRequest::DisableRawMode)
    } else if name == "tty_get_cols"@ {
        Some(HostRequest::Columns)
    } else if name == "tty_get_rows"@ {
        Some(HostRequest::Rows)
    } else {
        None
    }
}

/// Reads a call of a host function.
pub fn read_request(name: &str, args: &Vec<i32>) -> (r: Option<HostRequest>)
    ensures
        r == request_of(name@, args@),
{
    if same_text(name, "clayterm_reduce") && args.len() == 4 {
        Some(HostRequest::Reduce { ptr: args[0], len: args[1], mode: args[2], row: args[3] })
    } else if same_text(name, "clayterm_input_scan") && args.len() == 2 {
        Some(HostRequest::InputScan { ptr: args[0], len: args[1] })
    } else if same_text(name, "clayterm_input_event") && args.len() == 2 {
        Some(HostRequest::InputEvent { index: args[0], out: args[1] })
    } else if same_text(name, "tty_read_stdin") && args.len() == 2 {
        Some(HostRequest::ReadStdin { ptr: args[0], len: args[1] })
    } else if args.len() != 0 {
        None
    } else if same_text(name, "clayterm_flush") {
        Some(HostRequest::Flush)
    } else if same_text(name, "clayterm_animating") {
        Some(HostRequest::Animating)
    } else if same_text(name, "clayterm_input_count") {
        Some(HostRequest::InputCount)
    } else if same_text(name, "clayterm_input_delay") {
        Some(HostRequest::InputDelay)
    } else if same_text(name, "tty_enable_raw_mode") {
        Some(HostRequest::EnableRawMode)
    } else if same_text(name, "tty_disable_raw_mode") {
        Some(HostRequest::DisableRawMode)
    } else if same_text(name, "tty_get_cols") {
        Some(HostRequest::Columns)
    } else if same_text(name, "tty_get_rows") {
        Some(HostRequest::Rows)
    } else {
        None
    }
}

/// A call of one of clayterm's functions.
#[derive(Debug)]
pub struct ClayCall {
    pub export: String,
    /// The whole numbers among the arguments.
    pub args: Vec<i32>,
    /// The program's time is the last argument.
    pub with_time: bool,
}

/// Calls as plain values.
pub open spec fn call_texts(calls: Seq<ClayCall>) -> Seq<(Seq<char>, Seq<i32>, bool)> {
    Seq::new(calls.len(), |i: int| (calls[i].export@, calls[i].args@, calls[i].with_time))
}

/// The calls that answer a request to clayterm, in order. What is drawn or counted is found by the
/// state, and what is read by the input state.
pub open spec fn calls_for(request: HostRequest, term: ClayTerm) -> Seq<
    (Seq<char>, Seq<i32>, bool),
> {
    match request {
        HostRequest::Reduce { len, mode, row, .. } => seq![
            ("reduce"@, seq![term.state_ptr, term.ops_buf, len, mode, row], true),
        ],
        HostRequest::Flush => seq![
            ("output"@, seq![term.state_ptr], false),
            ("length"@, seq![term.state_ptr], false),
        ],
        HostRequest::Animating => seq![("animating"@, seq![term.state_ptr], false)],
        HostRequest::InputScan { len, .. } => seq![
            ("input_scan"@, seq![term.input_ptr, term.ops_buf, len], false),
        ],
        HostRequest::InputCount => seq![("input_count"@, seq![term.input_ptr], false)],
        HostRequest::InputEvent { index, .. } => seq![
            ("input_event"@, seq![term.input_ptr, index], false),
        ],
        HostRequest::InputDelay => seq![("input_delay"@, seq![term.input_ptr], false)],
        _ => Seq::empty(),
    }
}

/// What is done with what clayterm's functions return.
#[derive(Clone, Copy, Debug, PartialEq, Eq, Structural)]
pub enum AfterCalls {
    /// They return nothing.
    Nothing,
    /// They return the place and length of what was drawn, which is printed.
    Print,
    /// They return what the program is answered.
    Answer,
    /// They return the place of an event, which is copied to this place in the program's memory.
    GiveEvent { out: i32 },
}

/// What is done with what clayterm's functions return.
pub open spec fn after_for(request: HostRequest) -> AfterCalls {
    match request {
        HostRequest::Flush => AfterCalls::Print,
        HostRequest::Animating => AfterCalls::Answer,
        HostRequest::InputCount => AfterCalls::Answer,
        HostRequest::InputDelay => AfterCalls::Answer,
        HostRequest::InputEvent { out, .. } => AfterCalls::GiveEvent { out },
        _ => AfterCalls::Nothing,
    }
}

/// How clayterm answers a request.
#[derive(Debug)]
pub struct DrawPlan {
    pub term: ClayTerm,
    /// The program's bytes, to be written to the transfer buffer before the calls.
    pub bytes: Option<Vec<u8>>,
    pub calls: Vec<ClayCall>,
    pub after: AfterCalls,
}

/// What the host does for a program.
#[derive(Debug)]
pub enum HostAction {
    Draw(DrawPlan),
    EnableRawMode,
    DisableRawMode,
    /// Read standard input into the program's memory between these positions.
    Read { from: usize, to: usize },
    /// Answer with the columns of the terminal.
    Columns,
    /// Answer with its rows.
    Rows,
}

/// The answer to a request to a loaded clayterm.
pub open spec fn is_draw(
    r: Result<HostAction, HostFault>,
    request: HostRequest,
    term: ClayTerm,
    bytes: Option<Seq<u8>>,
) -> bool {
    &&& r matches Ok(HostAction::Draw(plan))
    &&& plan.term == term
    &&& match plan.bytes {
        Some(b) => bytes == Some(b@),
        None => bytes is None,
    }
    &&& call_texts(plan.calls@) == calls_for(request, term)
    &&& plan.after == after_for(request)
}

/// The answer to a request. Without a clayterm, a request to it is refused before anything else is
/// looked at.
pub open spec fn is_action(
    r: Result<HostAction, HostFault>,
    request: HostRequest,
    term: Option<ClayTerm>,
    memory: Option<Seq<u8>>,
) -> bool {
    if request.draws() {
        match (term, request.sent(), memory) {
            (None, _, _) => r matches Err(fault) && fault == HostFault::NotInitialized,
            (Some(t), None, _) => is_draw(r, request, t, None),
            (Some(_), Some(_), None) => r matches Err(fault) && fault == HostFault::NoMemory,
            (Some(t), Some((ptr, len)), Some(m)) => if in_memory(ptr, len as int, m.len() as int) {
                is_draw(r, request, t, Some(m.subrange(ptr as int, ptr + len)))
            } else {
                r matches Err(fault) && fault == HostFault::OutOfBounds
            },
        }
    } else {
        match request {
            HostRequest::ReadStdin { ptr, len } => match memory {
                None => r matches Err(fault) && fault == HostFault::NoMemory,
                Some(m) => if in_memory(ptr, len as int, m.len() as int) {
                    r matches Ok(HostAction::Read { from, to }) && from == ptr && to == ptr + len
                } else {
                    r matches Err(fault) && fault == HostFault::OutOfBounds
                },
            },
            HostRequest::EnableRawMode => r matches Ok(HostAction::EnableRawMode),
            HostRequest::DisableRawMode => r matches Ok(HostAction::DisableRawMode),
            HostRequest::Columns => r matches Ok(HostAction::Columns),
            _ => r matches Ok(HostAction::Rows),
        }
    }
}

fn clay_call(export: &str, args: Vec<i32>, with_time: bool) -> (r: Vec<ClayCall>)
    ensures
        call_texts(r@) == seq![(export@, args@, with_time)],
{
    let mut calls: Vec<ClayCall> = Vec::new();
    calls.push(ClayCall { export: export.to_owned(), args, with_time });
    assert(call_texts(calls@) =~= seq![(export@, args@, with_time)]);
    calls
}

fn one_arg(a: i32) -> (r: Vec<i32>)
    ensures
        r@ == seq![a],
{
    let mut args: Vec<i32> = Vec::new();
    args.push(a);
    assert(args@ =~= seq![a]);
    args
}

/// The calls that answer a request to clayterm.
fn clay_calls(request: HostRequest, term: ClayTerm) -> (r: Vec<ClayCall>)
    ensures
        call_texts(r@) == calls_for(request, term),
{
    match request {
        HostRequest::Reduce { len, mode, row, .. } => {
            let mut args: Vec<i32> = one_arg(term.state_ptr);
            args.push(term.ops_buf);
            args.push(len);
            args.push(mode);
            args.push(row);
            assert(args@ =~= seq![term.state_ptr, term.ops_buf, len, mode, row]);
            clay_call("reduce", args, true)
        },
        HostRequest::Flush => {
            let mut calls: Vec<ClayCall> = clay_call("output", one_arg(term.state_ptr), false);
            let mut more: Vec<ClayCall> = clay_call("length", one_arg(term.state_ptr), false);
            let ghost a = call_texts(calls@);
            let ghost b = call_texts(more@);
            calls.append(&mut more);
            assert(call_texts(calls@) =~= a + b);
            assert(a + b =~= calls_for(request, term));
            calls
        },
        HostRequest::Animating => clay_call("animating", one_arg(term.state_ptr), false),
        HostRequest::InputScan { len, .. } => {
            let mut args: Vec<i32> = one_arg(term.input_ptr);
            args.push(term.ops_buf);
            args.push(len);
            assert(args@ =~= seq![term.input_ptr, term.ops_buf, len]);
            clay_call("input_scan", args, false)
        },
        HostRequest::InputCount => clay_call("input_count", one_arg(term.input_ptr), false),
        HostRequest::InputEvent { index, .. } => {
            let mut args: Vec<i32> = one_arg(term.input_ptr);
            args.push(index);
            assert(args@ =~= seq![term.input_ptr, index]);
            clay_call("input_event", args, false)
        },
        HostRequest::InputDelay => clay_call("input_delay", one_arg(term.input_ptr), false),
        _ => {
            let calls: Vec<ClayCall> = Vec::new();
            assert(call_texts(calls@) =~= calls_for(request, term));
            calls
        },
    }
}

/// What is done with what clayterm's functions return.
fn after_calls(request: HostRequest) -> (r: AfterCalls)
    ensures
        r == after_for(request),
{
    match request {
        HostRequest::Flush => AfterCalls::Print,
        HostRequest::Animating => AfterCalls::Answer,
        HostRequest::InputCount => AfterCalls::Answer,
        HostRequest::InputDelay => AfterCalls::Answer,
        HostRequest::InputEvent { out, .. } => AfterCalls::GiveEvent { out },
        _ => AfterCalls::Nothing,
    }
}

/// Answers a request that hands bytes to clayterm.
fn draw_with_bytes(
    request: HostRequest,
    term: Option<ClayTerm>,
    memory: Option<&[u8]>,
    ptr: i32,
    len: i32,
) -> (r: Result<HostAction, HostFault>)
    requires
        request.draws(),
        request.sent() == Some((ptr, len)),
    ensures
        is_action(r, request, term, opt_bytes(memory)),
{
    match take_transfer(term, memory, ptr, len) {
        Ok(transfer) => {
            let calls: Vec<ClayCall> = clay_calls(request, transfer.term);
            Ok(
                HostAction::Draw(
                    DrawPlan {
                        term: transfer.term,
                        bytes: Some(transfer.bytes),
                        calls,
                        after: after_calls(request),
                    },
                ),
            )
        },
        Err(fault) => Err(fault),
    }
}

/// Answers a request that hands no bytes to clayterm.
fn draw_without_bytes(request: HostRequest, term: Option<ClayTerm>) -> (r: Result<
    HostAction,
    HostFault,
>)
    requires
        request.draws(),
        request.sent() is None,
    ensures
        forall|memory: Option<Seq<u8>>| #[trigger] is_action(r, request, term, memory),
{
    match loaded_term(term) {
        Ok(t) => {
            let calls: Vec<ClayCall> = clay_calls(request, t);
            Ok(
                HostAction::Draw(
                    DrawPlan { term: t, bytes: None, calls, after: after_calls(request) },
                ),
            )
        },
        Err(fault) => Err(fault),
    }
}

/// Works out what the host does for a program, given the loaded clayterm and the memory that the
/// program exports, as far as there are any.
pub fn host_call(request: HostRequest, term: Option<ClayTerm>, memory: Option<&[u8]>) -> (r:
    Result<HostAction, HostFault>)
    ensures
        is_action(r, request, term, opt_bytes(memory)),
{
    match request {
        HostRequest::Reduce { ptr, len, .. } => draw_with_bytes(request, term, memory, ptr, len),
        HostRequest::InputScan { ptr, len } => draw_with_bytes(request, term, memory, ptr, len),
        HostRequest::ReadStdin { ptr, len } => match memory {
            None => Err(HostFault::NoMemory),
            Some(m) => match buffer_range(ptr, len, m.len()) {
                Ok((from, to)) => Ok(HostAction::Read { from, to }),
                Err(fault) => Err(fault),
            },
        },
        HostRequest::EnableRawMode => Ok(HostAction::EnableRawMode),
        HostRequest::DisableRawMode => Ok(HostAction::DisableRawMode),
        HostRequest::Columns => Ok(HostAction::Columns),
        HostRequest::Rows => Ok(HostAction::Rows),
        _ => draw_without_bytes(request, term),
    }
}

/// Writes a program's bytes to clayterm's transfer buffer, where the request hands over any.
pub fn stage_transfer(memory: &mut [u8], plan: &DrawPlan) -> (r: Result<(), HostFault>)
    ensures
        match plan.bytes {
            Some(bytes) => match r {
                Ok(_) => {
                    &&& in_memory(
                        plan.term.ops_buf,
                        bytes@.len() as int,
                        old(memory)@.len() as int,
                    )
                    &&& final(memory)@ == overwritten(
                        old(memory)@,
                        plan.term.ops_buf as int,
                        bytes@,
                    )
                },
                Err(fault) => {
                    &&& fault == HostFault::OutOfBounds
                    &&& !in_memory(
                        plan.term.ops_buf,
                        bytes@.len() as int,
                        old(memory)@.len() as int,
                    )
                    &&& final(memory)@ == old(memory)@
                },
            },
            None => r is Ok && final(memory)@ == old(memory)@,
        },
{
    match &plan.bytes {
        Some(bytes) => give_bytes(memory, plan.term.ops_buf, bytes),
        None => Ok(()),
    }
}

/// The whole numbers among the parameters of a host function.
pub open spec fn whole_params(params: Seq<WasmType>) -> nat
    decreases params.len(),
{
    if params.len() == 0 {
        0
    } else {
        whole_params(params.drop_last()) + (if params.last() is I32 {
            1nat
        } else {
            0nat
        })
    }
}

/// Each host function that is offered can be called with the whole numbers that it takes, and the
/// first seven, and no others, are requests to clayterm.
pub proof fn offered_functions_are_answered(i: int, args: Seq<i32>)
    requires
        0 <= i < tty_signatures().len(),
        args.len() == whole_params(tty_signatures()[i].1),
    ensures
        request_of(tty_signatures()[i].0, args) matches Some(request) && (request.draws() <==> i
            < 7),
{
    lemma_tty_names();
    let params = tty_signatures()[i].1;
    if i == 0 {
        lemma_whole_params(params.drop_last());
    } else if params.len() == 2 {
        lemma_whole_params(params);
    }
}

proof fn lemma_whole_params(params: Seq<WasmType>)
    requires
        forall|i: int| 0 <= i < params.len() ==> #[trigger] params[i] is I32,
    ensures
        whole_params(params) == params.len(),
    decreases params.len(),
{
    if params.len() > 0 {
        let t = params.drop_last();
        assert forall|i: int| 0 <= i < t.len() implies #[trigger] t[i] is I32 by {
            assert(t[i] == params[i]);
        }
        lemma_whole_params(t);
    }
}

/// Without a clayterm each of the seven functions for drawing is refused, whatever its arguments
/// and the program's memory are; the functions for the terminal never are for that reason.
pub proof fn drawing_needs_clayterm(
    i: int,
    args: Seq<i32>,
    memory: Option<Seq<u8>>,
    r: Result<HostAction, HostFault>,
)
    requires
        0 <= i < tty_signatures().len(),
        args.len() == whole_params(tty_signatures()[i].1),
        is_action(r, request_of(tty_signatures()[i].0, args)->0, None, memory),
    ensures
        i < 7 <==> r == Err::<HostAction, HostFault>(HostFault::NotInitialized),
{
    offered_functions_are_answered(i, args);
}

// ---------------------------------------------------------------------------------------------
// The terminal
// ---------------------------------------------------------------------------------------------
/// The columns and rows of the terminal, or those of a plain one where it has no size.
pub fn terminal_size_i32(size: Option<(u16, u16)>) -> (r: (i32, i32))
    ensures
        r == (match size {
            Some((columns, rows)) => (columns as i32, rows as i32),
            None => (80i32, 24i32),
        }),
{
    match size {
        Some((columns, rows)) => (columns as i32, rows as i32),
        None => (80, 24),
    }
}

/// The terminal's local modes with line editing and echo switched on again.
pub fn disable_raw_mode(modes: u64, line_editing: u64, echo: u64) -> (r: u64)
    ensures
        r == modes | (line_editing | echo),
{
    modes | (line_editing | echo)
}

/// Leaving raw mode switches line editing and echo on and leaves the other modes as they are.
pub proof fn leaving_raw_mode_restores(modes: u64, line_editing: u64, echo: u64)
    ensures
        ({
            let r = modes | (line_editing | echo);
            &&& r & line_editing == line_editing
            &&& r & echo == echo
            &&& r & !(line_editing | echo) == modes & !(line_editing | echo)
        }),
{
    let r = modes | (line_editing | echo);
    assert(r & line_editing == line_editing && r & echo == echo && r & !(line_editing | echo)
        == modes & !(line_editing | echo)) by (bit_vector)
        requires
            r == modes | (line_editing | echo),
    ;
}

// ---------------------------------------------------------------------------------------------
// What the numbers mean
// ---------------------------------------------------------------------------------------------
/// Bytes lie in a memory exactly when the first and the last of them do; where there are none,
/// their place may be its end.
pub proof fn windows_lie_in_memory(ptr: i32, len: int, size: int)
    requires
        size >= 0,
    ensures
        len > 0 ==> (in_memory(ptr, len, size) <==> 0 <= ptr < size && 0 <= ptr + len - 1 < size),
        in_memory(ptr, 0, size) <==> 0 <= ptr <= size,
        len < 0 ==> !in_memory(ptr, len, size),
{
}

/// The pages that are added make the memory large enough, and none is added that is not needed.
pub proof fn added_pages_suffice(bytes: int, pages: int)
    requires
        bytes >= 0,
        pages >= 0,
    ensures
        missing_pages(bytes, pages) >= 0,
        (pages + missing_pages(bytes, pages)) * 65536 >= bytes,
        missing_pages(bytes, pages) > 0 ==> (pages + missing_pages(bytes, pages) - 1) * 65536
            < bytes,
        pages_for(bytes) * 65536 >= bytes,
        (pages_for(bytes) - 1) * 65536 < bytes,
{
}

/// Clayterm's memory can be laid out exactly when no size is negative and a transfer of one MiB
/// and 8192 elements of 116 bytes can be addressed behind the state.
pub proof fn layouts_are_addressable(heap_base: i32, state_size: i32, input_size: i32, ops: int)
    requires
        ops % 4 == 0,
        heap_base + state_size <= ops < heap_base + state_size + 4,
    ensures
        ops_at(heap_base, state_size) == ops,
        can_lay_out(heap_base, state_size, input_size) <==> heap_base >= 0 && state_size >= 0
            && input_size >= 0 && ops + 1998848 + 3 <= 0x7fff_ffff,
        can_lay_out(heap_base, state_size, input_size) ==> ops + 1998848 <= input_at(
            heap_base,
            state_size,
        ) <= 0x7fff_ffff,
        input_at(heap_base, state_size) < ops + 1998848 + 4,
        EVENT_SIZE == 64,
{
}

/// A scroll offset is eight bytes, all of them zero.
pub proof fn nothing_is_scrolled(i: int)
    requires
        0 <= i < no_scroll().len(),
    ensures
        no_scroll().len() == 8,
        no_scroll()[i] == 0,
{
}

/// A call of a drawing function becomes calls of clayterm's function of the same name, or of those
/// that say what was drawn and how long it is. They are given the state, or for input the input
/// state; the transfer buffer in place of the program's own; and the other numbers as the program
/// gave them. Only drawing is given the time.
pub proof fn calls_carry_the_programs_numbers(a: i32, b: i32, c: i32, d: i32, term: ClayTerm)
    ensures
        request_of("clayterm_reduce"@, seq![a, b, c, d]) matches Some(q) && q.sent() == Some((a, b))
            && calls_for(q, term) == seq![
            ("reduce"@, seq![term.state_ptr, term.ops_buf, b, c, d], true),
        ] && after_for(q) is Nothing,
        request_of("clayterm_flush"@, Seq::empty()) matches Some(q) && q.sent() is None
            && calls_for(q, term) == seq![
            ("output"@, seq![term.state_ptr], false),
            ("length"@, seq![term.state_ptr], false),
        ] && after_for(q) is Print,
        request_of("clayterm_animating"@, Seq::empty()) matches Some(q) && q.sent() is None
            && calls_for(q, term) == seq![("animating"@, seq![term.state_ptr], false)] && after_for(
            q,
        ) is Answer,
        request_of("clayterm_input_scan"@, seq![a, b]) matches Some(q) && q.sent() == Some((a, b))
            && calls_for(q, term) == seq![
            ("input_scan"@, seq![term.input_ptr, term.ops_buf, b], false),
        ] && after_for(q) is Nothing,
        request_of("clayterm_input_count"@, Seq::empty()) matches Some(q) && q.sent() is None
            && calls_for(q, term) == seq![("input_count"@, seq![term.input_ptr], false)]
            && after_for(q) is Answer,
        request_of("clayterm_input_event"@, seq![a, b]) matches Some(q) && q.sent() is None
            && calls_for(q, term) == seq![("input_event"@, seq![term.input_ptr, a], false)]
            && after_for(q) == (AfterCalls::GiveEvent { out: b }),
        request_of("clayterm_input_delay"@, Seq::empty()) matches Some(q) && q.sent() is None
            && calls_for(q, term) == seq![("input_delay"@, seq![term.input_ptr], false)]
            && after_for(q) is Answer,
{
    lemma_tty_names();
    assert(seq![a, b, c, d].len() == 4 && seq![a, b].len() == 2);
}

/// What a loaded clayterm does for a drawing function: the program's bytes, where it hands over
/// any, are those that its numbers name, and where these do not lie in its memory the program is
/// stopped.
pub proof fn drawing_takes_the_programs_bytes(
    r: Result<HostAction, HostFault>,
    request: HostRequest,
    term: ClayTerm,
    memory: Seq<u8>,
    ptr: i32,
    len: i32,
)
    requires
        is_action(r, request, Some(term), Some(memory)),
        request == (HostRequest::InputScan { ptr, len }) || (request matches HostRequest::Reduce {
            ptr: p,
            len: l,
            ..
        } && p == ptr && l == len),
    ensures
        0 <= ptr && 0 <= len && ptr + len <= memory.len() ==> (r matches Ok(HostAction::Draw(plan))
            && (plan.bytes matches Some(bytes) && bytes@ == memory.subrange(ptr as int, ptr + len))
            && plan.term == term && call_texts(plan.calls@) == calls_for(request, term)),
        !(0 <= ptr && 0 <= len && ptr + len <= memory.len()) ==> r == Err::<HostAction, HostFault>(
            HostFault::OutOfBounds,
        ),
{
}

/// What the host does for a function of the terminal, with or without a clayterm: it switches the
/// mode, tells the size, or reads into the bytes that the program names, where these lie in its
/// memory.
pub proof fn the_terminal_does_what_is_asked(
    r: Result<HostAction, HostFault>,
    term: Option<ClayTerm>,
    memory: Option<Seq<u8>>,
    ptr: i32,
    len: i32,
    name: Seq<char>,
    args: Seq<i32>,
)
    requires
        request_of(name, args) matches Some(q) && is_action(r, q, term, memory),
    ensures
        name == "tty_enable_raw_mode"@ ==> r matches Ok(HostAction::EnableRawMode),
        name == "tty_disable_raw_mode"@ ==> r matches Ok(HostAction::DisableRawMode),
        name == "tty_get_cols"@ ==> r matches Ok(HostAction::Columns),
        name == "tty_get_rows"@ ==> r matches Ok(HostAction::Rows),
        name == "tty_read_stdin"@ && args == seq![ptr, len] ==> match memory {
            None => r == Err::<HostAction, HostFault>(HostFault::NoMemory),
            Some(m) => if 0 <= ptr && 0 <= len && ptr + len <= m.len() {
                r matches Ok(HostAction::Read { from, to }) && from == ptr && to == ptr + len
            } else {
                r == Err::<HostAction, HostFault>(HostFault::OutOfBounds)
            },
        },
{
    lemma_tty_names();
    assert(seq![ptr, len][0] == ptr && seq![ptr, len][1] == len);
}

/// A call with another number of whole numbers than its function takes is no request, nor is one
/// of a function that is not offered.
pub proof fn other_calls_are_no_requests(name: Seq<char>, args: Seq<i32>)
    ensures
        request_of(name, args) is Some <==> {
            ||| name == "clayterm_reduce"@ && args.len() == 4
            ||| (name == "clayterm_input_scan"@ || name == "clayterm_input_event"@ || name
                == "tty_read_stdin"@) && args.len() == 2
            ||| (name == "clayterm_flush"@ || name == "clayterm_animating"@ || name
                == "clayterm_input_count"@ || name == "clayterm_input_delay"@ || name
                == "tty_enable_raw_mode"@ || name == "tty_disable_raw_mode"@ || name
                == "tty_get_cols"@ || name == "tty_get_rows"@) && args.len() == 0
        },
{
    lemma_tty_names();
}

/// The host's functions take whole numbers, and drawing a time behind them; those that answer do so
/// with a whole number, but for the delay, which is a time.
pub proof fn times_are_floats(i: int)
    requires
        0 <= i < tty_signatures().len(),
    ensures
        ({
            let (name, params, results) = tty_signatures()[i];
            let asks = name == "clayterm_animating"@ || name == "clayterm_input_count"@ || name
                == "tty_read_stdin"@ || name == "tty_get_cols"@ || name == "tty_get_rows"@;
            &&& params == (if name == "clayterm_reduce"@ {
                seq![WasmType::I32, WasmType::I32, WasmType::I32, WasmType::I32, WasmType::F64]
            } else if name == "clayterm_input_scan"@ || name == "clayterm_input_event"@ || name
                == "tty_read_stdin"@ {
                seq![WasmType::I32, WasmType::I32]
            } else {
                Seq::empty()
            })
            &&& results == (if name == "clayterm_input_delay"@ {
                seq![WasmType::F64]
            } else if asks {
                seq![WasmType::I32]
            } else {
                Seq::empty()
            })
        }),
{
    lemma_tty_names();
}

/// A request that hands bytes to clayterm needs the program's memory. One that does not needs none,
/// and is answered by a loaded clayterm whatever the memory is.
pub proof fn drawing_needs_what_it_reads(
    r: Result<HostAction, HostFault>,
    request: HostRequest,
    term: ClayTerm,
    memory: Option<Seq<u8>>,
)
    requires
        is_action(r, request, Some(term), memory),
    ensures
        (request is Reduce || request is InputScan) && memory is None ==> r == Err::<
            HostAction,
            HostFault,
        >(HostFault::NoMemory),
        request is Flush || request is Animating || request is InputCount || request is InputEvent
            || request is InputDelay ==> (r matches Ok(HostAction::Draw(plan)) && plan.bytes is None
            && plan.term == term && call_texts(plan.calls@) == calls_for(request, term)
            && plan.after == after_for(request)),
{
}

/// Bytes that are taken out of a memory are those from the given place on, as many as asked for;
/// where these do not lie in it the program is stopped.
pub proof fn taken_bytes_are_those_named(
    r: Result<Vec<u8>, HostFault>,
    memory: Seq<u8>,
    ptr: i32,
    len: i32,
)
    requires
        is_taken(r, memory, ptr, len),
    ensures
        0 <= ptr && 0 <= len && ptr + len <= memory.len() ==> (r matches Ok(bytes) && bytes@.len()
            == len && forall|i: int| 0 <= i < len ==> #[trigger] bytes@[i] == memory[ptr + i]),
        !(0 <= ptr && 0 <= len && ptr + len <= memory.len()) ==> r == Err::<Vec<u8>, HostFault>(
            HostFault::OutOfBounds,
        ),
{
}

} // verus!

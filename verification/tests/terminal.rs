use zena_cli::guest::{GuestValue, WasmType};
use zena_cli::tty::{
    add_tty_imports, answer_scroll_offset, buffer_range, disable_raw_mode, give_bytes, heap_base,
    host_call, load_clayterm, loaded_term, read_answer, read_request, read_window, stage_transfer,
    state_growth, take_event, take_output, take_transfer, terminal_size_i32, write_window,
    AfterCalls, ClayTerm, DrawPlan, HostAction, HostFault, HostRequest, EVENT_SIZE,
    TRANSFER_BUDGET, WASM_PAGE,
};

#[test]
fn the_budget_is_what_it_is() {
    assert_eq!(WASM_PAGE, 65536);
    assert_eq!(TRANSFER_BUDGET, 1998848);
    assert_eq!(EVENT_SIZE, 64);
}

#[test]
fn the_heap_starts_where_the_global_says() {
    assert_eq!(heap_base(Some(GuestValue::I32(1024))), 1024);
    assert_eq!(heap_base(Some(GuestValue::I64(1024))), 0);
    assert_eq!(heap_base(None), 0);
}

#[test]
fn memory_grows_for_the_state() {
    // The budget takes thirty and a half pages.
    assert_eq!(state_growth(0, 0, 2), Some(29));
    assert_eq!(state_growth(0, 0, 31), Some(0));
    assert_eq!(state_growth(0, 0, 100), Some(0));
    assert_eq!(state_growth(65536, 1, 2), Some(30));
    assert_eq!(state_growth(0, 32768, 31), Some(0));
    assert_eq!(state_growth(0, 32769, 31), Some(1));
    assert_eq!(state_growth(i32::MAX, i32::MAX, 0), Some(65567));
    assert_eq!(state_growth(-1, 0, 2), None);
    assert_eq!(state_growth(0, -1, 2), None);
}

#[test]
fn memory_is_laid_out() {
    let (term, extra) = load_clayterm(1001, 500, 1008, 100, 31 * WASM_PAGE).unwrap();
    assert_eq!(term.state_ptr, 1008);
    assert_eq!(term.ops_buf, 1504);
    assert_eq!(term.input_ptr, 1504 + 1998848);
    assert_eq!(extra, 0);
    // One byte too many takes one more page.
    let end = term.input_ptr as u64 + 100;
    assert_eq!(load_clayterm(1001, 500, 1008, 100, end).unwrap().1, 0);
    assert_eq!(load_clayterm(1001, 500, 1008, 101, end).unwrap().1, 1);
    assert_eq!(load_clayterm(1001, 500, 1008, 100 + 65536, end).unwrap().1, 1);
    assert_eq!(load_clayterm(1001, 500, 1008, 101 + 65536, end).unwrap().1, 2);
    assert!(load_clayterm(-1, 0, 0, 0, 0).is_none());
    assert!(load_clayterm(0, -1, 0, 0, 0).is_none());
    assert!(load_clayterm(0, 0, 0, -1, 0).is_none());
    assert!(load_clayterm(i32::MAX, 0, 0, 0, 0).is_none());
    let most = i32::MAX - 1998848 - 3;
    assert!(load_clayterm(most - 3, 0, 0, 0, 0).is_some());
    assert!(load_clayterm(most + 1, 0, 0, 0, 0).is_none());
}

#[test]
fn regions_lie_behind_one_another() {
    for heap in [0, 1, 2, 3, 4, 1021] {
        for size in [0, 1, 2, 3, 4, 4097] {
            let pages = 2 + state_growth(heap, size, 2).unwrap();
            let (term, extra) = load_clayterm(heap, size, heap, 333, pages * WASM_PAGE).unwrap();
            assert!(heap + size <= term.ops_buf);
            assert!(term.ops_buf + TRANSFER_BUDGET as i32 <= term.input_ptr);
            assert_eq!((term.ops_buf % 4, term.input_ptr % 4), (0, 0));
            let bytes = (pages + extra) * WASM_PAGE;
            assert!(term.input_ptr as u64 + 333 <= bytes);
        }
    }
}

#[test]
fn windows_are_read_and_written() {
    let mut memory: Vec<u8> = (0..16).collect();
    assert_eq!(read_window(&memory, 3, 4), Some(vec![3, 4, 5, 6]));
    assert_eq!(read_window(&memory, 16, 0), Some(vec![]));
    for (ptr, len) in [(-1, 1), (0, -1), (16, 1), (10, 7), (i32::MAX, i32::MAX), (8, -4)] {
        assert_eq!(read_window(&memory, ptr, len), None, "{ptr} {len}");
    }
    assert!(write_window(&mut memory, 2, &[90, 91, 92]));
    assert_eq!(memory[..7], [0, 1, 90, 91, 92, 5, 6]);
    assert_eq!(read_window(&memory, 2, 3), Some(vec![90, 91, 92]));
    let before = memory.clone();
    assert!(!write_window(&mut memory, 14, &[1, 2, 3]));
    assert!(!write_window(&mut memory, -1, &[1]));
    assert!(!write_window(&mut memory, 17, &[]));
    assert!(write_window(&mut memory, 16, &[]));
    assert_eq!(memory, before);
}

#[test]
fn scroll_offsets_are_zero() {
    let mut memory = vec![7u8; 12];
    assert!(answer_scroll_offset(&mut memory, 2));
    assert_eq!(memory, vec![7, 7, 0, 0, 0, 0, 0, 0, 0, 0, 7, 7]);
    assert!(!answer_scroll_offset(&mut memory, 5));
}

const TERM: ClayTerm = ClayTerm { state_ptr: 1, ops_buf: 8, input_ptr: 20 };

#[test]
fn transfers_are_taken_from_the_program() {
    let memory: Vec<u8> = (0..32).collect();
    let t = take_transfer(Some(TERM), Some(&memory), 4, 3).unwrap();
    assert_eq!(t.bytes, vec![4, 5, 6]);
    assert_eq!(t.term, TERM);
    let fault = |term, memory, ptr, len| take_transfer(term, memory, ptr, len).unwrap_err();
    assert_eq!(fault(None, None, 0, 0), HostFault::NotInitialized);
    assert_eq!(fault(Some(TERM), None, 0, 0), HostFault::NoMemory);
    assert_eq!(fault(Some(TERM), Some(&memory[..]), 30, 3), HostFault::OutOfBounds);
    assert_eq!(HostFault::NotInitialized.message(), "clayterm not initialized");
    assert_eq!(HostFault::NoMemory.message(), "no Zena memory export");
    assert_eq!(HostFault::OutOfBounds.message(), "range out of bounds");
    assert_eq!(loaded_term(Some(TERM)), Ok(TERM));
    assert_eq!(loaded_term(None), Err(HostFault::NotInitialized));
}

#[test]
fn output_and_events_are_taken_from_clayterm() {
    let memory: Vec<u8> = (0..100).collect();
    assert_eq!(take_output(&memory, 5, 2), Ok(vec![5, 6]));
    assert_eq!(take_output(&memory, -5, 0), Ok(vec![]));
    assert_eq!(take_output(&memory, 99, 2), Err(HostFault::OutOfBounds));
    assert_eq!(take_output(&memory, 5, -2), Err(HostFault::OutOfBounds));
    assert_eq!(take_event(&memory, 36).unwrap(), memory[36..100].to_vec());
    assert_eq!(take_event(&memory, 37), Err(HostFault::OutOfBounds));
}

#[test]
fn bytes_are_given_to_the_program() {
    let mut memory = vec![0u8; 4];
    assert_eq!(give_bytes(&mut memory, 1, &[5, 6]), Ok(()));
    assert_eq!(memory, vec![0, 5, 6, 0]);
    assert_eq!(give_bytes(&mut memory, 3, &[5, 6]), Err(HostFault::OutOfBounds));
    assert_eq!(memory, vec![0, 5, 6, 0]);
    assert_eq!(buffer_range(1, 3, 4), Ok((1, 4)));
    assert_eq!(buffer_range(1, 4, 4), Err(HostFault::OutOfBounds));
    assert_eq!(buffer_range(-1, 1, 4), Err(HostFault::OutOfBounds));
    assert_eq!(buffer_range(1, -1, 4), Err(HostFault::OutOfBounds));
    assert_eq!(read_answer(Some(12)), 12);
    assert_eq!(read_answer(Some(0)), 0);
    assert_eq!(read_answer(None), -1);
}

#[test]
fn a_transfer_keeps_the_states() {
    let (term, extra) = load_clayterm(16, 16, 16, 8, 31 * WASM_PAGE).unwrap();
    let mut memory = vec![3u8; ((31 + extra) * WASM_PAGE) as usize];
    let bytes = vec![9u8; TRANSFER_BUDGET as usize];
    assert!(write_window(&mut memory, term.ops_buf, &bytes));
    assert_eq!(memory[16..32], [3u8; 16]);
    let at = term.input_ptr as usize;
    assert_eq!(memory[at..at + 8], [3u8; 8]);
    assert_eq!(memory[term.ops_buf as usize], 9);
}

#[test]
fn host_functions_are_listed() {
    let functions = add_tty_imports();
    let i32s = |n: usize| vec![WasmType::I32; n];
    assert_eq!(functions.len(), 12);
    assert_eq!(functions[0].name, "clayterm_reduce");
    assert_eq!(functions[0].params[..4], i32s(4)[..]);
    assert_eq!(functions[0].params[4], WasmType::F64);
    let rest: Vec<(&str, usize, &[WasmType])> =
        functions[1..].iter().map(|f| (f.name.as_str(), f.params.len(), &f.results[..])).collect();
    assert_eq!(
        rest,
        vec![
            ("clayterm_flush", 0, &[][..]),
            ("clayterm_animating", 0, &[WasmType::I32][..]),
            ("clayterm_input_scan", 2, &[][..]),
            ("clayterm_input_count", 0, &[WasmType::I32][..]),
            ("clayterm_input_event", 2, &[][..]),
            ("clayterm_input_delay", 0, &[WasmType::F64][..]),
            ("tty_enable_raw_mode", 0, &[][..]),
            ("tty_disable_raw_mode", 0, &[][..]),
            ("tty_read_stdin", 2, &[WasmType::I32][..]),
            ("tty_get_cols", 0, &[WasmType::I32][..]),
            ("tty_get_rows", 0, &[WasmType::I32][..]),
        ]
    );
    let mut names: Vec<String> = functions.into_iter().map(|f| f.name).collect();
    names.sort();
    names.dedup();
    assert_eq!(names.len(), 12);
}

#[test]
fn terminals_without_a_size_are_plain() {
    assert_eq!(terminal_size_i32(Some((220, 50))), (220, 50));
    assert_eq!(terminal_size_i32(Some((0, 65535))), (0, 65535));
    assert_eq!(terminal_size_i32(None), (80, 24));
}

#[test]
fn raw_mode_is_left() {
    let (line_editing, echo) = (0o2u64, 0o10u64);
    assert_eq!(disable_raw_mode(0o100, line_editing, echo), 0o112);
    assert_eq!(disable_raw_mode(0o112, line_editing, echo), 0o112);
    assert_eq!(disable_raw_mode(0, line_editing, echo), 0o12);
}

fn call(
    name: &str,
    args: &[i32],
    term: Option<ClayTerm>,
    memory: Option<&[u8]>,
) -> Result<HostAction, HostFault> {
    host_call(read_request(name, &args.to_vec()).unwrap(), term, memory)
}

fn drawn(name: &str, args: &[i32], memory: Option<&[u8]>) -> DrawPlan {
    match call(name, args, Some(TERM), memory).unwrap() {
        HostAction::Draw(plan) => plan,
        other => panic!("{other:?}"),
    }
}

fn calls(plan: &DrawPlan) -> Vec<(&str, &[i32], bool)> {
    plan.calls.iter().map(|c| (c.export.as_str(), &c.args[..], c.with_time)).collect()
}

#[test]
fn drawing_is_forwarded() {
    let memory: Vec<u8> = (0..32).collect();
    let plan = drawn("clayterm_reduce", &[4, 3, 9, 2], Some(&memory));
    assert_eq!(plan.bytes, Some(vec![4, 5, 6]));
    assert_eq!(calls(&plan), vec![("reduce", &[1, 8, 3, 9, 2][..], true)]);
    assert_eq!(plan.after, AfterCalls::Nothing);
    let mut clay = vec![0u8; 16];
    assert_eq!(stage_transfer(&mut clay, &plan), Ok(()));
    assert_eq!(clay, vec![0, 0, 0, 0, 0, 0, 0, 0, 4, 5, 6, 0, 0, 0, 0, 0]);
    assert_eq!(stage_transfer(&mut clay[..10], &plan), Err(HostFault::OutOfBounds));

    let plan = drawn("clayterm_flush", &[], None);
    assert_eq!(calls(&plan), vec![("output", &[1][..], false), ("length", &[1][..], false)]);
    assert_eq!(plan.after, AfterCalls::Print);
    assert_eq!(plan.bytes, None);
    assert_eq!(stage_transfer(&mut [], &plan), Ok(()));

    let plan = drawn("clayterm_animating", &[], None);
    assert_eq!(calls(&plan), vec![("animating", &[1][..], false)]);
    assert_eq!(plan.after, AfterCalls::Answer);
}

#[test]
fn input_is_forwarded() {
    let memory: Vec<u8> = (0..32).collect();
    let plan = drawn("clayterm_input_scan", &[30, 2], Some(&memory));
    assert_eq!(plan.bytes, Some(vec![30, 31]));
    assert_eq!(calls(&plan), vec![("input_scan", &[20, 8, 2][..], false)]);
    let plan = drawn("clayterm_input_count", &[], None);
    assert_eq!(calls(&plan), vec![("input_count", &[20][..], false)]);
    assert_eq!(plan.after, AfterCalls::Answer);
    let plan = drawn("clayterm_input_event", &[5, 100], None);
    assert_eq!(calls(&plan), vec![("input_event", &[20, 5][..], false)]);
    assert_eq!(plan.after, AfterCalls::GiveEvent { out: 100 });
    let plan = drawn("clayterm_input_delay", &[], None);
    assert_eq!(calls(&plan), vec![("input_delay", &[20][..], false)]);
    assert_eq!(plan.after, AfterCalls::Answer);
}

#[test]
fn only_drawing_needs_clayterm() {
    let memory = vec![0u8; 8];
    for f in add_tty_imports() {
        let whole = f.params.iter().filter(|t| **t == WasmType::I32).count();
        let args = vec![0; whole];
        let outcome = call(&f.name, &args, None, Some(&memory));
        let refused = matches!(outcome, Err(HostFault::NotInitialized));
        assert_eq!(refused, f.name.starts_with("clayterm_"), "{}", f.name);
        let outcome = call(&f.name, &vec![-1; whole], None, None);
        let refused = matches!(outcome, Err(HostFault::NotInitialized));
        assert_eq!(refused, f.name.starts_with("clayterm_"), "{}", f.name);
    }
}

#[test]
fn calls_of_the_terminal_are_answered() {
    let memory = vec![0u8; 8];
    let ok = |name: &str| call(name, &[], None, None).unwrap();
    assert!(matches!(ok("tty_enable_raw_mode"), HostAction::EnableRawMode));
    assert!(matches!(ok("tty_disable_raw_mode"), HostAction::DisableRawMode));
    assert!(matches!(ok("tty_get_cols"), HostAction::Columns));
    assert!(matches!(ok("tty_get_rows"), HostAction::Rows));
    let read = call("tty_read_stdin", &[2, 6], None, Some(&memory)).unwrap();
    assert!(matches!(read, HostAction::Read { from: 2, to: 8 }));
    let fault = |args: &[i32], memory: Option<&[u8]>| {
        call("tty_read_stdin", args, None, memory).unwrap_err()
    };
    assert_eq!(fault(&[2, 7], Some(&memory)), HostFault::OutOfBounds);
    assert_eq!(fault(&[2, 6], None), HostFault::NoMemory);
    let reduce = call("clayterm_reduce", &[0, 9, 0, 0], Some(TERM), Some(&memory));
    assert!(matches!(reduce, Err(HostFault::OutOfBounds)));
    let reduce = call("clayterm_reduce", &[0, 9, 0, 0], Some(TERM), None);
    assert!(matches!(reduce, Err(HostFault::NoMemory)));
}

#[test]
fn unknown_calls_are_not_read() {
    assert_eq!(read_request("clayterm_draw", &Vec::new()), None);
    assert_eq!(read_request("clayterm_reduce", &vec![1, 2]), None);
    assert_eq!(read_request("clayterm_flush", &vec![1]), None);
    assert_eq!(
        read_request("clayterm_input_scan", &vec![1, 2]),
        Some(HostRequest::InputScan { ptr: 1, len: 2 })
    );
}

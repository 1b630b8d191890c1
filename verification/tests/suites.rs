use zena_cli::pattern::{check_patterns, flag_matching};
use zena_cli::suite::{
    arrange_tests, collect_tests, excluding_line, is_glob, orchestrator_args, parallelism,
    run_all_tests, running_line, Found, PathArg, PathScan, SelectError,
};
use zena_cli::verdict::{
    judge, plan_test, run_single_test, run_single_test_worker, single_path, worker_error,
    TestEnd, TestReport, TestStatus,
};
use zena_cli::guest::GuestValue;

fn strings(list: &[&str]) -> Vec<String> {
    list.iter().map(|s| s.to_string()).collect()
}

fn found(list: &[(&str, bool)]) -> Vec<Found> {
    list.iter().map(|(p, f)| Found { path: p.to_string(), is_file: *f }).collect()
}

fn arg(text: &str, scan: PathScan) -> PathArg {
    PathArg { text: text.to_string(), scan }
}

fn tree() -> Vec<PathArg> {
    vec![
        arg("t", PathScan::Dir(found(&[
            ("t", false),
            ("t/b_test.zena", true),
            ("t/a_test.zena", true),
            ("t/helper.zena", true),
            ("t/dir_test.zena", false),
            ("t/notes.md", true),
        ]))),
        arg("x*.zena", PathScan::Glob(found(&[
            ("x1.zena", true),
            ("x2.zena", false),
            ("x3.txt", true),
        ]))),
        arg("one.zena", PathScan::File),
        arg("other.txt", PathScan::File),
    ]
}

#[test]
fn globs_are_told_by_their_characters() {
    for s in ["a*", "?", "a[b]", "["] {
        assert!(is_glob(s), "{s}");
    }
    for s in ["", "a/b.zena", "a]", "{a}"] {
        assert!(!is_glob(s), "{s}");
    }
}

#[test]
fn tests_are_found_by_kind_of_argument() {
    let files = collect_tests(&tree()).unwrap();
    assert_eq!(files, strings(&["t/b_test.zena", "t/a_test.zena", "x1.zena", "one.zena"]));
}

#[test]
fn chosen_tests_are_sorted() {
    let all = run_all_tests(&tree(), None, &Vec::new()).unwrap();
    assert_eq!(all.files, strings(&["one.zena", "t/a_test.zena", "t/b_test.zena", "x1.zena"]));
    assert_eq!(all.skipped, 0);
}

#[test]
fn excluded_tests_are_counted() {
    let some = run_all_tests(&tree(), None, &strings(&["t/*", "nothing"])).unwrap();
    assert_eq!(some.files, strings(&["one.zena", "x1.zena"]));
    assert_eq!(some.skipped, 2);
    assert_eq!(excluding_line(2).unwrap(), "Excluding 2 test file(s) by --exclude");
    assert_eq!(excluding_line(0), None);
    assert_eq!(running_line(2), "Running 2 tests...");
}

#[test]
fn the_filter_looks_for_its_text() {
    let some = run_all_tests(&tree(), Some("_test"), &Vec::new()).unwrap();
    assert_eq!(some.files, strings(&["t/a_test.zena", "t/b_test.zena"]));
    assert_eq!(some.skipped, 0);
}

#[test]
fn each_error_of_a_choice_is_reached() {
    let bad = vec![arg("a[", PathScan::BadGlob("why".to_string()))];
    let e = run_all_tests(&bad, None, &Vec::new()).unwrap_err();
    assert!(matches!(e, SelectError::BadGlob { .. }));
    assert_eq!(e.message(), "Invalid glob pattern 'a[': why");

    let walk = vec![arg("t", PathScan::WalkFailed("denied".to_string()))];
    let e = run_all_tests(&walk, None, &Vec::new()).unwrap_err();
    assert!(matches!(e, SelectError::WalkFailed { .. }));
    assert_eq!(e.message(), "denied");

    let mut gone = tree();
    gone.push(arg("gone", PathScan::Missing));
    gone.push(arg("later", PathScan::Missing));
    let e = run_all_tests(&gone, None, &strings(&["a["])).unwrap_err();
    assert_eq!(e.message(), "Path not found: gone");

    let e = run_all_tests(&tree(), None, &strings(&["ok", "a["])).unwrap_err();
    assert!(matches!(e, SelectError::BadExclude { .. }));
    assert_eq!(e.message(), "Invalid --exclude pattern 'a['");

    let e = run_all_tests(&tree(), Some("zzz"), &strings(&["t/*"])).unwrap_err();
    assert!(matches!(e, SelectError::NoTests { skipped: 2 }));
    assert_eq!(e.message(), "No tests found matching the path/filter.");
}

#[test]
fn patterns_match_as_the_glob_crate_does() {
    let patterns = ["*.zena", "t/*", "**/a_test.zena", "?1.zena", "[ab]*", "t", ""];
    let paths = ["t/a_test.zena", "x1.zena", "a", "b/c", "t", "", "deep/er/a_test.zena"];
    for pattern in patterns {
        let flags = flag_matching(&strings(&paths), &strings(&[pattern])).unwrap();
        let compiled = glob::Pattern::new(pattern).unwrap();
        for (path, flag) in paths.iter().zip(flags) {
            let expected = compiled.matches_path(std::path::Path::new(path));
            assert_eq!(flag, expected, "{pattern} {path}");
        }
    }
}

#[test]
fn the_first_malformed_pattern_is_named() {
    assert!(check_patterns(&strings(&["a", "*"])).is_ok());
    let (k, fault) = check_patterns(&strings(&["a", "x[", "y["])).unwrap_err();
    let expected = glob::Pattern::new("x[").unwrap_err();
    assert_eq!(k, 1);
    assert_eq!(fault.position, expected.pos);
    assert_eq!(fault.message, expected.msg);
    assert!(flag_matching(&strings(&["p"]), &strings(&["a**"])).is_err());
}

#[test]
fn flagged_files_are_dropped() {
    let files = strings(&["c", "a", "b"]);
    let chosen = arrange_tests(&files, &vec![false, true, false], None).unwrap();
    assert_eq!(chosen.files, strings(&["b", "c"]));
    assert_eq!(chosen.skipped, 1);
    assert!(arrange_tests(&files, &vec![true, true, true], None).is_err());
}

#[test]
fn parallelism_is_bounded_unless_asked_for() {
    assert_eq!(parallelism(Some("3"), Some(16)), 3);
    assert_eq!(parallelism(Some("64"), Some(2)), 64);
    assert_eq!(parallelism(Some("0"), Some(16)), 8);
    assert_eq!(parallelism(Some(" 3"), Some(2)), 2);
    assert_eq!(parallelism(None, Some(16)), 8);
    assert_eq!(parallelism(None, Some(1)), 1);
    assert_eq!(parallelism(None, None), 4);
}

#[test]
fn the_orchestrator_is_told_what_to_run() {
    assert_eq!(
        orchestrator_args("/bin/zena", 8, true, &strings(&["/r/a.zena", "/r/b.zena"])),
        strings(&["/bin/zena", "8", "1", "/r/a.zena", "/r/b.zena"])
    );
    assert_eq!(
        orchestrator_args("/bin/zena", 1, false, &Vec::new()),
        strings(&["/bin/zena", "1", "0"])
    );
}

fn returned(first: Option<GuestValue>, shown: &str) -> TestEnd {
    TestEnd::Returned { first, shown: shown.to_string() }
}

#[test]
fn a_test_passes_with_zero_or_nothing() {
    for first in [None, Some(GuestValue::I32(0))] {
        let r = run_single_test(b"all good\n", b"note\n", returned(first, "Some(I32(0))"));
        assert_eq!(r.status, TestStatus::Pass);
        assert_eq!(r.stdout, "all good\n");
        assert_eq!(r.stderr, "note\n");
        assert_eq!(r.message, None);
    }
}

#[test]
fn a_test_fails_by_its_code() {
    for first in [GuestValue::I32(1), GuestValue::I64(0), GuestValue::Other] {
        let r = run_single_test(b"FAIL", b"", returned(Some(first), "Some(X)"));
        assert_eq!(r.status, TestStatus::Fail);
        assert_eq!(r.message.as_deref(), Some("Suite returned non-zero code: Some(X)"));
        assert_eq!(r.stdout, "FAIL");
    }
}

#[test]
fn a_test_fails_by_its_output() {
    let r = run_single_test(b"1 FAILED", b"", returned(None, "None"));
    assert_eq!(r.status, TestStatus::Fail);
    assert_eq!(r.message.as_deref(), Some("Suite reported failure in output"));
    let r = run_single_test(b"1 failed", b"FAIL", returned(None, "None"));
    assert_eq!(r.status, TestStatus::Pass);
}

#[test]
fn a_test_fails_by_a_trap() {
    let end = TestEnd::Trapped { error: "unreachable".to_string(), backtrace: None };
    let r = judge("out".to_string(), "err".to_string(), end);
    assert_eq!(r.status, TestStatus::Fail);
    assert_eq!(r.stdout, "out");
    assert_eq!(r.stderr, "err");
    assert_eq!(r.message.as_deref(), Some("Execution failed: unreachable"));
    let end = TestEnd::Trapped {
        error: "unreachable".to_string(),
        backtrace: Some("0: main".to_string()),
    };
    let r = judge(String::new(), String::new(), end);
    assert_eq!(
        r.message.as_deref(),
        Some("Execution failed: unreachable\nWasm Backtrace:\n0: main")
    );
}

#[test]
fn a_test_that_does_not_start_fails() {
    let r = run_single_test(
        b"out",
        b"err \xf0\x9f",
        TestEnd::NotInstantiated { error: "no import".to_string() },
    );
    assert_eq!(r.status, TestStatus::Fail);
    assert_eq!(r.stdout, "");
    assert_eq!(r.stderr, "err \u{fffd}");
    assert_eq!(r.message.as_deref(), Some("Instantiation failed: no import"));
    let r = run_single_test(b"out", b"err", TestEnd::NoMain);
    assert_eq!(r.status, TestStatus::Fail);
    assert_eq!(r.stdout, "");
    assert_eq!(r.stderr, "");
    assert_eq!(r.message.as_deref(), Some("Failed to find `main` export"));
}

#[test]
fn output_is_decoded_lossily() {
    let cases: [&[u8]; 5] = [b"", b"plain", "\u{e9}\u{4e2d}".as_bytes(), b"a\xffb", b"\xe4\xb8"];
    for bytes in cases {
        let r = run_single_test(bytes, bytes, returned(None, "None"));
        assert_eq!(r.stdout, String::from_utf8_lossy(bytes));
        assert_eq!(r.stderr, String::from_utf8_lossy(bytes));
    }
}

#[test]
fn workers_take_one_file() {
    assert_eq!(single_path(&strings(&["a.zena"])), Ok("a.zena".to_string()));
    for paths in [strings(&[]), strings(&["a", "b"])] {
        assert_eq!(single_path(&paths), Err("test --single takes exactly one file".to_string()));
    }
}

#[test]
fn workers_mirror_their_test() {
    let report = |status, message: Option<&str>| TestReport {
        status,
        stdout: "out\n".to_string(),
        stderr: "err\n".to_string(),
        message: message.map(|m| m.to_string()),
    };
    let pass = run_single_test_worker(report(TestStatus::Pass, None));
    assert_eq!((pass.stdout.as_str(), pass.stderr.as_str(), pass.exit_code), ("out\n", "err\n", 0));
    let fail = run_single_test_worker(report(TestStatus::Fail, Some("why")));
    assert_eq!(fail.stdout, "out\n");
    assert_eq!(fail.stderr, "err\nwhy\n");
    assert_eq!(fail.exit_code, 1);
    let silent = run_single_test_worker(report(TestStatus::Fail, None));
    assert_eq!(silent.stderr, "err\n");
    let broken = worker_error("no such file");
    assert_eq!(broken.stdout, "");
    assert_eq!(broken.stderr, "Error: no such file\n");
    assert_eq!(broken.exit_code, 1);
}

#[test]
fn tests_see_three_directories() {
    let plan = plan_test("t.zena", "/r", "/r/packages/stdlib/zena", "/r/.zena/tmp");
    let pairs: Vec<(&str, &str)> =
        plan.mounts.iter().map(|m| (m.host.as_str(), m.guest.as_str())).collect();
    assert_eq!(
        pairs,
        vec![("/r", "."), ("/r/packages/stdlib/zena", "/stdlib"), ("/r/.zena/tmp", "/tmp")]
    );
    assert_eq!(plan.args, strings(&["t.zena"]));
    assert!(plan.spawn);
    let flipped: Vec<(&str, &str)> =
        plan.path_map.iter().map(|(guest, host)| (host.as_str(), guest.as_str())).collect();
    assert_eq!(flipped, pairs);
}

use zena_cli::args::push_all;
use zena_cli::compile::{
    build_file, cache_dir, compile_and_run, compile_to_cache, compiler_missing_message,
    compiler_wasm, locate_source, package_dir, repo_root, test_request, tmp_dir, tool_request,
    CompileSite, Mount, RootChoice,
};
use zena_cli::guest::{exit_code, guest_args, missing_export_message, show_result, GuestValue};
use zena_cli::key::{cache_key, KeyInputs, WalkEntry};
use zena_cli::run::{
    clayterm_size, open_run_dirs, run_target, run_wasm, spawn_allowed, split_dir, RunTarget,
};
use zena_cli::stale::{FileStamp, Timestamp};
use zena_cli::tool::{
    doc_exit, failed_message, missing_main_message, missing_path_message, run_doc,
    run_internal_tool, test_plan, tests_verdict, DocRequest,
};
use zena_cli::variables::guest_env;

fn strings(list: &[&str]) -> Vec<String> {
    list.iter().map(|s| s.to_string()).collect()
}

fn pairs(mounts: &[Mount]) -> Vec<(&str, &str)> {
    mounts.iter().map(|m| (m.host.as_str(), m.guest.as_str())).collect()
}

#[test]
fn builds_always_compile() {
    let b = build_file("a.zena", "out/dir/a.wat", true, true, true, None, None, None);
    assert!(b.request.no_cache && b.request.wat && b.request.debug && b.request.verbose);
    assert!(b.request.time && !b.request.test_mode && !b.request.capture_output);
    assert_eq!(b.request.file, "a.zena");
    assert_eq!(b.output_dir.as_deref(), Some("out/dir"));
    let b = build_file(
        "a.zena",
        "a.wasm",
        false,
        false,
        false,
        Some("host".to_string()),
        Some("w.wit".to_string()),
        Some("cmd".to_string()),
    );
    assert!(!b.request.wat);
    assert_eq!(b.output_dir, None);
    assert_eq!(b.request.target.as_deref(), Some("host"));
    assert_eq!(b.request.wit.as_deref(), Some("w.wit"));
    assert_eq!(b.request.world.as_deref(), Some("cmd"));
    assert_eq!(build_file("a", "/", false, false, false, None, None, None).output_dir, None);
}

#[test]
fn runs_keep_the_compilers_output_back() {
    let r = compile_and_run("a.zena", false, true, true, false);
    assert!(r.replay && r.capture_output && r.time && r.no_cache && !r.wat && !r.test_mode);
    assert!(!compile_and_run("a.zena", true, false, false, false).capture_output);
    let t = tool_request("t.zena", true, true);
    assert!(t.capture_output && t.debug && !t.no_cache && !t.test_mode && !t.time && !t.replay);
    let t = test_request("t.zena", false, true);
    assert!(t.capture_output && t.debug && !t.no_cache && t.test_mode && !t.replay);
}

#[test]
fn the_root_is_named_or_found() {
    let r = repo_root(Some("/elsewhere".to_string()), "/r/packages/zena-cli");
    assert!(matches!(r, Some(RootChoice::FromEnv(p)) if p == "/elsewhere"));
    let r = repo_root(None, "/r/packages/zena-cli");
    assert!(matches!(r, Some(RootChoice::FromBuild(p)) if p == "/r"));
    let named = repo_root(Some("/gone".to_string()), "/r/packages/zena-cli").unwrap();
    assert_eq!(named.missing_message().as_deref(), Some("ZENA_REPO_ROOT does not exist: /gone"));
    assert_eq!(repo_root(None, "/r/packages/zena-cli").unwrap().missing_message(), None);
    assert!(repo_root(None, "/").is_none());
    assert!(repo_root(None, "").is_none());
}

#[test]
fn places_hang_off_the_root() {
    assert_eq!(compiler_wasm(None, "/r"), "/r/packages/zena-compiler/zena/out/cli.wasm");
    assert_eq!(compiler_wasm(Some("c.wasm".to_string()), "/r"), "c.wasm");
    assert_eq!(
        compiler_missing_message("/c.wasm"),
        "Compiler WASM not found at /c.wasm. Please build it first."
    );
    assert_eq!(cache_dir(true, false, "/r", None).as_deref(), Some("/r/.zena/cache"));
    assert_eq!(cache_dir(false, true, "/r", Some("/u")).as_deref(), Some("/r/.zena/cache"));
    assert_eq!(cache_dir(false, false, "/r", Some("/u")).as_deref(), Some("/u/wasm_objects"));
    assert_eq!(cache_dir(false, false, "/r", None), None);
    assert_eq!(tmp_dir(false, true, "/r"), ("/r/.zena/tmp".to_string(), true));
    assert_eq!(tmp_dir(false, false, "/r"), ("/tmp".to_string(), false));
}

#[test]
fn sources_are_named_from_the_root() {
    let inside = locate_source("/r/packages/p/a.zena", "/r");
    assert_eq!(inside.arg, "packages/p/a.zena");
    assert_eq!(inside.external_dir, None);
    let outside = locate_source("/home/x/a.zena", "/r");
    assert_eq!(outside.arg, "/home/x/a.zena");
    assert_eq!(outside.external_dir.as_deref(), Some("/home/x"));
    assert_eq!(locate_source("/repo2/a.zena", "/repo").external_dir.as_deref(), Some("/repo2"));
    // Another checkout gives the same name.
    assert_eq!(locate_source("/other/packages/p/a.zena", "/other").arg, inside.arg);
}

#[test]
fn packages_are_found() {
    assert_eq!(package_dir("/r/packages/p/a.zena", "/r").as_deref(), Some("/r/packages/p"));
    assert_eq!(package_dir("/r/packages/a.zena", "/r").as_deref(), Some("/r/packages/a.zena"));
    assert_eq!(package_dir("/r/packages", "/r"), None);
    assert_eq!(package_dir("/r/other/p/a.zena", "/r"), None);
    assert_eq!(package_dir("/x/packages/p/a.zena", "/r"), None);
}

fn site(source: &str) -> CompileSite {
    let stamp = FileStamp { modified: Some(Timestamp { secs: 9, nanos: 1 }), len: 5 };
    CompileSite {
        source: source.to_string(),
        repo_root: "/r".to_string(),
        cache_dir: "/c".to_string(),
        pid: 77,
        compiler: Some(stamp),
        backend: None,
        opt_flag: Some("2".to_string()),
        opt_env: Some("s".to_string()),
        wide_arithmetic: None,
        debug_names: None,
        manifest: None,
        stdlib: vec![WalkEntry { path: "/r/s.zena".to_string(), stamp: Some(stamp) }],
        package: Vec::new(),
    }
}

#[test]
fn compiles_are_worked_out() {
    let mut request = test_request("hello.zena", false, true);
    request.target = Some("host".to_string());
    request.time = true;
    request.wit = Some("w".to_string());
    request.world = Some("v".to_string());
    let plan = compile_to_cache(&request, site("/r/x/hello.zena"));
    let key = cache_key(&KeyInputs {
        source: "/r/x/hello.zena".to_string(),
        test_mode: true,
        debug: true,
        target: Some("host".to_string()),
        wat: false,
        compiler: site("").compiler,
        backend: None,
        opt_level: Some("2".to_string()),
        wide_arithmetic: None,
        debug_names: None,
        manifest: None,
        stdlib: site("").stdlib,
        package: Vec::new(),
    });
    assert_eq!(plan.key, key);
    assert_eq!(plan.paths.cached, format!("/c/hello_{:x}.wasm", key));
    let temp = format!("/c/hello_{:x}.tmp-77.wasm", key);
    assert_eq!(plan.paths.temp, temp);
    assert_eq!(
        plan.args,
        strings(&[
            "zc", "x/hello.zena", "-o", &temp, "-t", "host", "--time", "--test", "--wit", "w",
            "--world", "v",
        ])
    );
    let pair = |a: &str, b: &str| (a.to_string(), b.to_string());
    assert_eq!(plan.env, vec![pair("ZENA_DEBUG_NAMES", "1"), pair("ZENA_OPT_LEVEL", "2")]);
    assert_eq!(
        pairs(&plan.mounts),
        vec![("/r", "."), ("/r/packages/stdlib/zena", "/stdlib"), ("/c", "/c")]
    );
}

#[test]
fn compiles_outside_the_repository_open_their_directory() {
    let mut outside = site("/home/x/a.zena");
    outside.opt_flag = None;
    let plan = compile_to_cache(&compile_and_run("a.zena", false, false, false, false), outside);
    assert_eq!(plan.args[1], "/home/x/a.zena");
    assert_eq!(plan.args.len(), 4);
    assert!(plan.env.is_empty());
    assert_eq!(pairs(&plan.mounts)[3], ("/home/x", "/home/x"));
}

#[test]
fn wasm_files_are_run_as_they_are() {
    assert_eq!(run_target("a.wasm"), RunTarget::Module);
    assert_eq!(run_target("a.zena"), RunTarget::Source);
    assert_eq!(run_target("wasm"), RunTarget::Source);
}

#[test]
fn directories_have_a_host_and_a_guest_side() {
    let sides = |s: &str| {
        let parts: Vec<&str> = s.split("::").collect();
        if parts.len() == 2 {
            (parts[0].to_string(), parts[1].to_string())
        } else {
            (s.to_string(), s.to_string())
        }
    };
    for s in ["", ".", "/a::/b", "::", "a::", "::b", "a:b", "a:::b", "a::b::c", "a::::b", "a:::::"] {
        assert_eq!(split_dir(s), sides(s), "{s}");
    }
}

#[test]
fn runs_are_worked_out() {
    let dirs = strings(&["/tmp/x/y::/data", ".", "/tmp", "/tmpx"]);
    let plan = run_wasm("a.wasm", &strings(&["-v", "1"]), &dirs, false, true, "/r", true);
    assert_eq!(plan.args, strings(&["a.wasm", "-v", "1"]));
    let got: Vec<(&str, bool, &str)> =
        plan.dirs.iter().map(|d| (d.host.as_str(), d.create, d.guest.as_str())).collect();
    assert_eq!(
        got,
        vec![
            ("/r/.zena/tmp/x/y", true, "/data"),
            (".", false, "."),
            ("/r/.zena/tmp/", true, "/tmp"),
            ("/tmpx", false, "/tmpx"),
        ]
    );
    let plain = run_wasm("a.wasm", &Vec::new(), &dirs, false, false, "/r", false);
    assert!(plan.spawn && !plain.spawn);
    let places = strings(&["/r/.zena/tmp/x/y", "/home/me", "/r/.zena/tmp", "/data"]);
    let opened = open_run_dirs(&plan.dirs, &places).unwrap();
    // The canonical paths count, not those that were typed.
    assert_eq!(
        pairs(&opened.mounts),
        vec![
            ("/r/.zena/tmp/x/y", "/data"),
            ("/home/me", "."),
            ("/r/.zena/tmp", "/tmp"),
            ("/data", "/tmpx"),
        ]
    );
    let flipped: Vec<(&str, &str)> =
        opened.path_map.iter().map(|(guest, host)| (host.as_str(), guest.as_str())).collect();
    assert_eq!(flipped, pairs(&opened.mounts));
    assert!(open_run_dirs(&plan.dirs, &strings(&["/r"])).is_none());
    assert_eq!(plain.dirs[0].host, "/tmp/x/y");
    assert!(!plain.dirs[0].create);
}

#[test]
fn only_one_separator_splits_a_directory() {
    let dirs = strings(&["/data::/d", "/x::y::z"]);
    let plan = run_wasm("a.wasm", &strings(&["p", "q"]), &dirs, false, false, "/r", false);
    assert_eq!(plan.args, strings(&["a.wasm", "p", "q"]));
    let pair = |a: &str, b: &str| (a.to_string(), b.to_string());
    let places = strings(&["/data", "/x::y::z"]);
    let opened = open_run_dirs(&plan.dirs, &places).unwrap();
    assert_eq!(opened.path_map, vec![pair("/d", "/data"), pair("/x::y::z", "/x::y::z")]);
    assert_eq!(pairs(&opened.mounts), vec![("/data", "/d"), ("/x::y::z", "/x::y::z")]);
    assert!(!plan.spawn);
}

#[test]
fn spawning_has_to_be_allowed() {
    assert!(spawn_allowed(true, None));
    assert!(spawn_allowed(false, Some("1")));
    assert!(!spawn_allowed(false, Some("0")));
    assert!(!spawn_allowed(false, None));
}

#[test]
fn the_compiler_sees_each_variable_once() {
    let pair = |a: &str, b: &str| (a.to_string(), b.to_string());
    let set = vec![pair("ZENA_DEBUG_NAMES", "1"), pair("ZENA_OPT_LEVEL", "2")];
    let host = vec![
        pair("HOME", "/h"),
        pair("ZENA_OPT_LEVEL", "0"),
        pair("ZENA_BACKEND", "b"),
        pair("HOME", "/other"),
    ];
    assert_eq!(
        guest_env(&set, &host),
        vec![
            pair("ZENA_DEBUG_NAMES", "1"),
            pair("ZENA_OPT_LEVEL", "2"),
            pair("HOME", "/h"),
            pair("ZENA_BACKEND", "b"),
        ]
    );
    // Without the flag the host's level is seen.
    assert_eq!(guest_env(&Vec::new(), &host)[1], pair("ZENA_OPT_LEVEL", "0"));
}

#[test]
fn wide_arithmetic_parts_artifacts() {
    let request = compile_and_run("a.zena", false, false, false, false);
    let plain = compile_to_cache(&request, site("/r/a.zena"));
    let mut other = site("/r/a.zena");
    other.wide_arithmetic = Some("1".to_string());
    assert_ne!(plain.paths.cached, compile_to_cache(&request, other).paths.cached);
}

#[test]
fn debug_names_part_artifacts_unless_debug_decides() {
    let with = |debug: bool, names: Option<&str>| {
        let mut place = site("/r/a.zena");
        place.debug_names = names.map(|n| n.to_string());
        compile_to_cache(&compile_and_run("a.zena", false, false, false, debug), place)
    };
    assert_ne!(with(false, None).paths.cached, with(false, Some("1")).paths.cached);
    assert_eq!(with(true, None).paths.cached, with(true, Some("1")).paths.cached);
    // With `debug`, the host's value is not seen.
    let host = vec![("ZENA_DEBUG_NAMES".to_string(), "0".to_string())];
    assert_eq!(guest_env(&with(true, None).env, &host)[0].1, "1");
    assert_eq!(guest_env(&with(false, None).env, &host).last().unwrap().1, "0");
}

#[test]
fn the_size_is_read_or_taken_from_the_terminal() {
    assert_eq!(clayterm_size(Some("220x50"), (1, 2)), (220, 50));
    assert_eq!(clayterm_size(Some("220"), (1, 2)), (220, 24));
    assert_eq!(clayterm_size(Some("x50"), (1, 2)), (80, 50));
    assert_eq!(clayterm_size(Some("1x2x3"), (1, 2)), (1, 24));
    assert_eq!(clayterm_size(Some(""), (1, 2)), (80, 24));
    assert_eq!(clayterm_size(Some("-5x+7"), (1, 2)), (-5, 7));
    assert_eq!(clayterm_size(None, (1, 2)), (1, 2));
}

#[test]
fn results_are_shown() {
    assert_eq!(show_result(GuestValue::I32(-3)).as_deref(), Some("-3"));
    assert_eq!(show_result(GuestValue::I64(i64::MIN)), Some(i64::MIN.to_string()));
    assert_eq!(show_result(GuestValue::Other), None);
    assert_eq!(exit_code(Some(GuestValue::I32(3))), 3);
    assert_eq!(exit_code(Some(GuestValue::I64(3))), 0);
    assert_eq!(exit_code(None), 0);
    assert_eq!(missing_export_message("start"), "failed to find `start` export");
    assert_eq!(guest_args("p", &strings(&["a"])), strings(&["p", "a"]));
    let mut list = strings(&["a"]);
    push_all(&mut list, &strings(&["b", "c"]));
    assert_eq!(list, strings(&["a", "b", "c"]));
}

#[test]
fn tools_run_from_the_repository() {
    let plan = run_internal_tool("packages/p/t.zena", &strings(&["a"]), "/r");
    assert_eq!(plan.source, "/r/packages/p/t.zena");
    assert_eq!(plan.args, strings(&["packages/p/t.zena", "a"]));
    assert_eq!(pairs(&plan.mounts), vec![("/r", "."), ("/", "/")]);
    assert!(plan.spawn);
    let pair = |a: &str, b: &str| (a.to_string(), b.to_string());
    assert_eq!(plan.path_map, vec![pair(".", "/r"), pair("/", "/")]);
    assert_eq!(missing_path_message("x/y"), "No such path: x/y");
    assert_eq!(doc_exit(0), None);
    assert_eq!(doc_exit(3), Some(3));
    let tests = test_plan(&strings(&["x"]), "/r");
    assert_eq!(tests.source, "/r/packages/zena-cli/zena/test-run.zena");
    assert_eq!(tests.args[1], "x");
    assert_eq!(missing_main_message("t.zena"), "t.zena has no main export");
    assert_eq!(failed_message("t.zena"), "t.zena failed");
    assert_eq!(tests_verdict(0), Ok(()));
    assert_eq!(tests_verdict(2), Err("Some tests failed".to_string()));
}

#[test]
fn documentation_is_asked_for() {
    let mut request = DocRequest {
        path: "/r/packages/p".to_string(),
        output: None,
        name: None,
        target: "zena-cli".to_string(),
        include_private: false,
    };
    let plan = run_doc(&request, "/r");
    assert_eq!(plan.source, "/r/packages/zenadoc/zena/cli/main.zena");
    assert_eq!(
        plan.args,
        strings(&["packages/zenadoc/zena/cli/main.zena", "packages/p", "--target", "zena-cli"])
    );
    request.path = "/elsewhere/p".to_string();
    request.output = Some("/o.json".to_string());
    request.name = Some("n".to_string());
    request.include_private = true;
    assert_eq!(
        run_doc(&request, "/r").args[1..],
        strings(&[
            "/elsewhere/p", "--target", "zena-cli", "-o", "/o.json", "--name", "n",
            "--include-private",
        ])[..]
    );
}

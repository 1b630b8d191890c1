use std::path::{Component, Path, PathBuf};

use zena_cli::components::{get_components, without_prefix};
use zena_cli::order::{order_paths, sort_paths};
use zena_cli::path::{
    get_file_name, get_file_stem, get_parent, has_extension, join, set_extension,
};

const PATHS: [&str; 41] = [
    "", "/", ".", "..", "a", "a/", "a/b", "/a", "/a/b", "/a//b", "/a/./b", "./a", "a/.", "a/./",
    "a/..", "../a", "//a", "///", "/.", "/..", "a.b", "a.b.c", ".a", ".a.b", "..a", "a.", "a..b",
    "/a/b.zena", "/a/b.zena/", "/a/b.zena/.", "/repo/packages/x/y_test.zena", "x.wasm", "x.cwasm",
    "/tmp", "/tmp/", "/tmp/x/y", "/tmpx", "a/b/c", "a-b", "a b/c", "\u{e9}/\u{4e2d}.zena",
];

fn text(p: &Path) -> String {
    p.to_str().unwrap().to_string()
}

fn spelled_components(s: &str) -> Vec<String> {
    Path::new(s)
        .components()
        .map(|c| match c {
            Component::RootDir => "/".to_string(),
            other => other.as_os_str().to_str().unwrap().to_string(),
        })
        .collect()
}

#[test]
fn joins_as_std_does() {
    for a in PATHS {
        for b in PATHS {
            assert_eq!(join(a, b), text(&Path::new(a).join(b)), "{a:?} {b:?}");
        }
    }
}

#[test]
fn names_and_parents_are_those_of_std() {
    for s in PATHS {
        let p = Path::new(s);
        let name = p.file_name().map(|x| x.to_str().unwrap().to_string());
        let stem = p.file_stem().map(|x| x.to_str().unwrap().to_string());
        assert_eq!(get_file_name(s), name, "{s:?}");
        assert_eq!(get_file_stem(s), stem, "{s:?}");
        assert_eq!(get_parent(s), p.parent().map(text), "{s:?}");
        for ext in ["zena", "b", "c", "", "wasm"] {
            let expected = p.extension().map_or(false, |x| x == ext);
            assert_eq!(has_extension(s, ext), expected, "{s:?} {ext:?}");
        }
    }
}

#[test]
fn extensions_are_set_as_std_does() {
    for s in PATHS {
        for ext in ["cwasm", "debug.cwasm", "lock", "tmp-17", ""] {
            let mut expected = PathBuf::from(s);
            expected.set_extension(ext);
            assert_eq!(set_extension(s, ext), text(&expected), "{s:?} {ext:?}");
            if Path::new(s).file_stem().map_or(true, |stem| stem != ".") {
                let replaced = Path::new(s).with_extension(ext);
                assert_eq!(set_extension(s, ext), text(&replaced), "{s:?} {ext:?}");
            }
        }
    }
}

#[test]
fn components_are_those_of_std() {
    for s in PATHS {
        assert_eq!(get_components(s), spelled_components(s), "{s:?}");
    }
}

#[test]
fn prefixes_come_off_as_in_std() {
    for s in PATHS {
        for prefix in PATHS {
            let expected = Path::new(s).strip_prefix(prefix).ok();
            let got = without_prefix(s, prefix);
            assert_eq!(got.is_some(), expected.is_some(), "{s:?} {prefix:?}");
            if let (Some(g), Some(e)) = (got, expected) {
                let parts: PathBuf = e.components().collect();
                assert_eq!(g, text(&parts), "{s:?} {prefix:?}");
                // Joining the prefix on again gives the same components.
                assert_eq!(get_components(&join(prefix, &g)), get_components(s));
            }
        }
    }
}

#[test]
fn order_is_that_of_std() {
    for a in PATHS {
        for b in PATHS {
            let expected: i8 = match Path::new(a).cmp(Path::new(b)) {
                std::cmp::Ordering::Less => -1,
                std::cmp::Ordering::Equal => 0,
                std::cmp::Ordering::Greater => 1,
            };
            assert_eq!(order_paths(a, b), expected, "{a:?} {b:?}");
        }
    }
}

#[test]
fn sorts_as_std_does() {
    let list: Vec<String> = PATHS.iter().rev().map(|s| s.to_string()).collect();
    let mut expected: Vec<PathBuf> = list.iter().map(PathBuf::from).collect();
    expected.sort();
    let expected: Vec<String> = expected.iter().map(|p| text(p)).collect();
    assert_eq!(sort_paths(&list), expected);
    assert_eq!(sort_paths(&Vec::new()), Vec::<String>::new());
}

use zena_cli::number::{parse_i32, parse_u32, parse_u64, to_decimal, to_numeral, to_signed_decimal};
use zena_cli::text::{
    chars_of, contains, find_in, glue, has_suffix, is_white, part_of, same_text, split_once_at,
    trim,
};

const TEXTS: [&str; 12] = [
    "", "x", "FAIL", "ok FAIL ok", "80x24", "::", "a::b", "a::b::c", "a:::b", "\u{e9}::\u{4e2d}",
    "  padded\t", "aaa",
];

#[test]
fn searching_agrees_with_std() {
    for s in TEXTS {
        for pat in ["", "x", "::", "FAIL", "aa", "\u{4e2d}", "b"] {
            assert_eq!(contains(s, pat), s.contains(pat), "{s:?} {pat:?}");
            let split = split_once_at(s, pat);
            let expected = s.split_once(pat).map(|(a, b)| (a.to_string(), b.to_string()));
            assert_eq!(split, expected, "{s:?} {pat:?}");
            assert_eq!(has_suffix(s, pat), s.ends_with(pat), "{s:?} {pat:?}");
        }
    }
}

#[test]
fn joins_and_cuts() {
    assert_eq!(glue("ab", "c\u{e9}"), "abc\u{e9}");
    assert_eq!(chars_of("a\u{4e2d}"), vec!['a', '\u{4e2d}']);
    assert_eq!(find_in(&chars_of("abcabc"), &chars_of("ca")), Some(2));
    assert_eq!(find_in(&chars_of("abc"), &chars_of("abcd")), None);
    assert_eq!(part_of("a\u{e9}bc", 1, 3), "\u{e9}b");
    assert!(same_text("abc", "abc"));
    assert!(!same_text("abc", "abd"));
    assert!(!same_text("abc", "ab"));
}

#[test]
fn white_space_is_that_of_unicode() {
    for u in 0..=0x10ffffu32 {
        if let Some(c) = char::from_u32(u) {
            assert_eq!(is_white(c), c.is_whitespace(), "{u:#x}");
        }
    }
}

#[test]
fn trims_as_std_does() {
    for s in ["", " ", "x", " x", "x ", "\t x y \n", "\u{2003}12\u{a0}", "a\u{200b}"] {
        assert_eq!(trim(s), s.trim(), "{s:?}");
    }
}

#[test]
fn numerals_agree_with_format() {
    for n in [0u64, 1, 9, 10, 15, 16, 255, 256, 0xdead_beef, 1 << 63, u64::MAX] {
        assert_eq!(to_numeral(n, 16), format!("{:x}", n));
        assert_eq!(to_numeral(n, 2), format!("{:b}", n));
        assert_eq!(to_decimal(n), n.to_string());
    }
    for n in [0i64, 7, -7, i64::MAX, i64::MIN, i32::MIN as i64] {
        assert_eq!(to_signed_decimal(n), n.to_string());
    }
}

#[test]
fn reads_numbers_as_std_does() {
    let inputs = [
        "", "0", "7", "007", "+7", "-7", "-0", "+", "-", "++1", "+-1", "1 ", " 1", "1x", "x",
        "4294967295", "4294967296", "2147483647", "2147483648", "-2147483648", "-2147483649",
        "18446744073709551615", "18446744073709551616", "99999999999999999999999", "\u{661}",
        "0x10", "1_000", "1.0", "00000000000000000000000000000000042",
    ];
    for s in inputs {
        assert_eq!(parse_u64(s), s.parse::<u64>().ok(), "{s:?}");
        assert_eq!(parse_u32(s), s.parse::<u32>().ok(), "{s:?}");
        assert_eq!(parse_i32(s), s.parse::<i32>().ok(), "{s:?}");
    }
}

#[test]
fn numbers_read_back() {
    for n in [0i32, 1, -1, 42, i32::MAX, i32::MIN] {
        assert_eq!(parse_i32(&to_signed_decimal(n as i64)), Some(n));
    }
    for n in [0u64, 10, u64::MAX] {
        assert_eq!(parse_u64(&to_decimal(n)), Some(n));
    }
}

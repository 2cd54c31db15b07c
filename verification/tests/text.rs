use waydroidsu::paths::join;
use waydroidsu::text::{
    after_last_char, contains_bytes, contains_chars, decimal_chars, ends_with_chars, eq_chars,
    from_chars, is_whitespace, join_bytes, parse_i32_chars, split_lines_bytes,
    split_lines_chars, split_once_chars, split_whitespace_chars, starts_with_chars, str_contains,
    str_eq, to_chars, trim_chars, trim_end_matches_chars, trim_start_matches_chars, trim_str,
};

fn chars(s: &str) -> Vec<char> {
    s.chars().collect()
}

fn text(v: &[char]) -> String {
    v.iter().collect()
}

fn texts(v: &[Vec<char>]) -> Vec<String> {
    v.iter().map(|l| text(l)).collect()
}

#[test]
fn chars_and_strings_convert_both_ways() {
    assert_eq!(to_chars("z\u{fc}rich \u{1F600}"), chars("z\u{fc}rich \u{1F600}"));
    assert_eq!(from_chars(&chars("z\u{fc}rich \u{1F600}")), "z\u{fc}rich \u{1F600}");
    assert_eq!(to_chars(""), Vec::<char>::new());
}

#[test]
fn contains_finds_a_run() {
    assert!(contains_chars(&chars("25010:MAGISK:R"), &chars(":MAGISK:R")));
    assert!(contains_chars(&chars("abc"), &chars("")));
    assert!(contains_chars(&chars(""), &chars("")));
    assert!(!contains_chars(&chars(""), &chars("a")));
    assert!(!contains_chars(&chars("ab"), &chars("abc")));
    assert!(contains_chars(&chars("aab"), &chars("ab")));
    assert!(!contains_chars(&chars("aXb"), &chars("ab")));
    assert!(contains_bytes(b"service zygote x", b"service zygote "));
    assert!(!contains_bytes(b"service zygote", b"service zygote "));
    assert!(contains_bytes(b"xx", b"x"));
    assert!(str_contains("v27.2-Waydroid", "Waydroid"));
    assert!(!str_contains("v27.2-waydroid", "Waydroid"));
}

#[test]
fn lines_are_split_like_str_lines() {
    for s in ["", "\n", "a", "a\n", "a\nb", "a\r\nb\r\n", "a\n\nb\n\n", "\r\n", "a\r", "\ra\n", "a\r\r\n"] {
        let expected: Vec<String> = s.lines().map(|l| l.to_string()).collect();
        assert_eq!(texts(&split_lines_chars(&chars(s))), expected, "{:?}", s);
        let bytes: Vec<Vec<u8>> = s.lines().map(|l| l.as_bytes().to_vec()).collect();
        assert_eq!(split_lines_bytes(s.as_bytes()), bytes, "{:?}", s);
    }
}

#[test]
fn join_puts_the_separator_between_neighbours() {
    assert_eq!(join_bytes(&vec![], b"\n"), Vec::<u8>::new());
    assert_eq!(join_bytes(&vec![b"a".to_vec()], b"\n"), b"a".to_vec());
    assert_eq!(
        join_bytes(&vec![b"a".to_vec(), Vec::new(), b"c".to_vec()], b", "),
        b"a, , c".to_vec()
    );
}

#[test]
fn white_space_is_what_char_says() {
    for u in 0..0x3100u32 {
        if let Some(c) = char::from_u32(u) {
            assert_eq!(is_whitespace(c), c.is_whitespace(), "U+{:04X}", u);
        }
    }
    assert!(!is_whitespace('\u{FEFF}'));
}

#[test]
fn trim_behaves_like_str_trim() {
    for s in ["", " ", "  a  ", "a", "\t\na b\r\n", "\u{a0}x\u{3000}", " \u{200b} "] {
        assert_eq!(text(&trim_chars(&chars(s))), s.trim(), "{:?}", s);
        assert_eq!(trim_str(s), s.trim());
    }
}

#[test]
fn prefixes_and_suffixes() {
    assert!(starts_with_chars(&chars("libmagisk.so"), &chars("lib")));
    assert!(!starts_with_chars(&chars("li"), &chars("lib")));
    assert!(starts_with_chars(&chars("x"), &chars("")));
    assert!(ends_with_chars(&chars("libmagisk.so"), &chars(".so")));
    assert!(!ends_with_chars(&chars("so"), &chars(".so")));
    assert!(eq_chars(&chars("abc"), &chars("abc")));
    assert!(!eq_chars(&chars("abc"), &chars("abd")));
    assert!(!eq_chars(&chars("abc"), &chars("ab")));
    assert!(str_eq("True", "True"));
    assert!(!str_eq("True", "true"));
    for (s, p) in [("25010:MAGISK:R", ":MAGISK:R"), ("a.so.so", ".so"), ("soso", "so"), ("x", "xy"), ("", "a")] {
        assert_eq!(text(&trim_end_matches_chars(&chars(s), &chars(p))), s.trim_end_matches(p));
        assert_eq!(text(&trim_start_matches_chars(&chars(s), &chars(p))), s.trim_start_matches(p));
    }
    assert_eq!(text(&trim_start_matches_chars(&chars("liblibx"), &chars("lib"))), "x");
    assert_eq!(text(&trim_end_matches_chars(&chars("abc"), &chars(""))), "abc");
}

#[test]
fn fields_are_split_like_str_split() {
    for s in ["", "a", "a=b", "a=b=c", "=", "a=", "==x"] {
        assert_eq!(text(&after_last_char(&chars(s), '=')), s.split('=').last().unwrap(), "{:?}", s);
        let expected = s.split_once('=').map(|(a, b)| (a.to_string(), b.to_string()));
        let got = split_once_chars(&chars(s), '=').map(|(a, b)| (text(&a), text(&b)));
        assert_eq!(got, expected, "{:?}", s);
    }
}

#[test]
fn words_are_split_like_split_whitespace() {
    for s in ["", "   ", "a", " a  b\tc\n", "/dev/loop0 /tmp/waydroidsu/mnt ext4 rw 0 0", "x\u{a0}y"] {
        let expected: Vec<String> = s.split_whitespace().map(|w| w.to_string()).collect();
        assert_eq!(texts(&split_whitespace_chars(&chars(s))), expected, "{:?}", s);
    }
}

#[test]
fn numbers_are_read_like_str_parse() {
    for s in [
        "0", "2", "-1", "+7", "10073", "2147483647", "2147483648", "-2147483648", "-2147483649",
        "", "-", "+", "1a", " 1", "1 ", "--1", "+-1", "0012", "99999999999999999999", "1_000",
        "\u{663}",
    ] {
        assert_eq!(parse_i32_chars(&chars(s)), s.parse::<i32>().ok(), "{:?}", s);
    }
}

#[test]
fn numbers_are_written_in_base_ten() {
    for v in [0i64, 5, 9, 10, 42, 10073, -1, -10, 2147483647, -2147483648, i64::MAX, i64::MIN] {
        assert_eq!(text(&decimal_chars(v)), v.to_string());
    }
    for v in [-100i32, -1, 0, 1, 99, 100, i32::MAX, i32::MIN] {
        let written = decimal_chars(v as i64);
        assert_eq!(parse_i32_chars(&written), Some(v));
    }
}

#[test]
fn paths_are_joined_like_path_join() {
    for (base, rel) in [
        ("/var/lib/waydroid", "overlay"),
        ("/var/lib/waydroid/", "overlay"),
        ("", "system/etc"),
        ("/tmp", "/mnt/waydroid"),
        ("a", ""),
        ("/", "x"),
        ("rel", "a/b/"),
    ] {
        let expected = std::path::Path::new(base).join(rel);
        assert_eq!(join(base, rel), expected.to_string_lossy(), "{:?} {:?}", base, rel);
    }
}
